//! Cancellation, request heads and bodies in memory.
use conduit::proto::body::{collect_all, BodyBytes, BodyFrame, VecBody};
use conduit::proto::cancel::{Cancellation, CancellationError, Latch};
use conduit::proto::head::{drop_host, host_of, Field};

#[test]
fn fresh_token_is_not_cancelled() {
    let c = Cancellation::new();
    assert!(!c.is_cancelled());
    assert!(c.check().is_ok());
}

#[test]
fn cancel_propagates_to_clones() {
    let a = Cancellation::new();
    let b = a.clone();
    let c = a.clone();
    assert!(!b.is_cancelled());
    a.cancel();
    assert!(b.is_cancelled());
    assert!(c.is_cancelled());
    assert_eq!(c.check(), Err(CancellationError::Cancelled));
}

#[test]
fn cancel_is_idempotent() {
    let c = Cancellation::new();
    c.cancel();
    c.cancel();
    c.cancel();
    assert!(c.is_cancelled());
}

#[test]
fn cancel_is_monotonic() {
    let c = Cancellation::new();
    c.cancel();
    assert!(c.is_cancelled());
}

#[test]
fn debug_includes_state() {
    let c = Cancellation::new();
    let s = c.debug_text();
    assert!(s.contains("cancelled: false"), "got {s:?}");
    c.cancel();
    let s = c.debug_text();
    assert!(s.contains("cancelled: true"), "got {s:?}");
}

#[test]
fn cancellation_observable_through_clone() {
    let parent = Cancellation::new();
    let child = parent.clone();
    assert!(!parent.is_cancelled());
    assert!(!child.is_cancelled());

    child.cancel();
    assert!(parent.is_cancelled());
    assert_eq!(parent.check(), Err(CancellationError::Cancelled));
}

#[test]
fn cancellation_default_is_uncancelled() {
    let c: Cancellation = Cancellation::default();
    assert!(!c.is_cancelled());
}

#[test]
fn cancellation_message() {
    assert_eq!(CancellationError::Cancelled.message(), "operation cancelled");
}

#[test]
fn latch_goes_one_way() {
    let mut l = Latch::new();
    assert!(!l.is_set());
    l.set();
    assert!(l.is_set());
    l.set();
    assert!(l.is_set());
}

#[test]
fn independent_handles_do_not_share() {
    let a = Cancellation::new();
    let b = Cancellation::new();
    a.cancel();
    assert!(!b.is_cancelled());
}

#[test]
fn request_head_round_trip() {
    let body = VecBody::from_bytes(b"hello".to_vec());
    let req: http::Request<VecBody> = http::Request::builder()
        .method(http::Method::POST)
        .uri("https://example.com/api/v1/items?id=42")
        .header("content-type", "application/json")
        .body(body)
        .expect("builder");

    assert_eq!(req.method(), http::Method::POST);
    assert_eq!(req.uri().path(), "/api/v1/items");
    assert_eq!(req.uri().query(), Some("id=42"));
    assert_eq!(
        req.headers()
            .get("content-type")
            .map(http::HeaderValue::as_bytes),
        Some(&b"application/json"[..])
    );

    assert_eq!(&req.into_body().collect()[..], b"hello");
}

#[test]
fn response_head_round_trip() {
    let body = VecBody::from_bytes(b"ok".to_vec());
    let resp: http::Response<VecBody> = http::Response::builder()
        .status(http::StatusCode::OK)
        .header("x-conduit", "yes")
        .body(body)
        .expect("builder");

    assert_eq!(resp.status(), http::StatusCode::OK);
    assert_eq!(
        resp.headers()
            .get("x-conduit")
            .map(http::HeaderValue::as_bytes),
        Some(&b"yes"[..])
    );

    assert_eq!(&resp.into_body().collect()[..], b"ok");
}

#[test]
fn chunks_are_put_together() {
    let body = VecBody::from_chunks(vec![b"a".to_vec(), b"bcd".to_vec()]);
    assert_eq!(body.collect(), b"abcd");
    assert!(VecBody::empty().is_end_stream());
}

#[test]
fn body_frame_ordering_data_then_trailers() {
    let trailers = vec![("x-end".to_string(), b"now".to_vec())];
    let mut body =
        VecBody::from_chunks(vec![b"abc".to_vec(), b"de".to_vec()]).with_trailers(trailers);

    // First two frames are data, in declared order.
    for expected in [&b"abc"[..], &b"de"[..]] {
        match body.next_frame() {
            Some(BodyFrame::Data(buf)) => assert_eq!(&buf[..], expected),
            other => panic!("expected data frame, got {other:?}"),
        }
    }

    // Then trailers.
    assert!(!body.is_end_stream());
    match body.next_frame() {
        Some(BodyFrame::Trailers(t)) => {
            assert_eq!(t.len(), 1);
            assert_eq!(t[0].0, "x-end");
            assert_eq!(&t[0].1[..], b"now");
        }
        other => panic!("expected trailer frame, got {other:?}"),
    }

    // Then end-of-stream.
    assert!(body.next_frame().is_none());
    assert!(body.is_end_stream());
}

#[test]
fn collect_takes_what_is_left() {
    let mut body = VecBody::from_chunks(vec![b"ab".to_vec(), Vec::new(), b"c".to_vec()]);
    assert!(body.next_frame().is_some());
    assert_eq!(body.collect(), b"c");
}

fn fields(list: &[(&str, &str)]) -> Vec<Field> {
    list.iter()
        .map(|(n, v)| Field {
            name: n.to_string(),
            value: v.as_bytes().to_vec(),
        })
        .collect()
}

fn names(list: &[Field]) -> Vec<&str> {
    list.iter().map(|f| f.name.as_str()).collect()
}

#[test]
fn every_host_is_dropped_and_the_rest_stays() {
    let mut f = fields(&[("host", "a"), ("x", "1"), ("HOST", "b"), ("hosts", "2"), ("x", "3")]);
    assert_eq!(host_of(&f), Some("a".to_string()));
    drop_host(&mut f);
    assert_eq!(names(&f), vec!["x", "hosts", "x"]);
    assert_eq!(f[2].value, b"3");
    assert_eq!(host_of(&f), None);
    drop_host(&mut f);
    assert_eq!(names(&f), vec!["x", "hosts", "x"]);
    let mut all = fields(&[("host", "a"), ("Host", "b")]);
    drop_host(&mut all);
    assert!(all.is_empty());
}

#[test]
fn body_bytes_bound_is_satisfied_by_vec_body() {
    fn require<B: BodyBytes>(body: B) -> Vec<u8> {
        assert!(body.ended());
        collect_all(body)
    }
    assert!(require(VecBody::empty()).is_empty());
}
