use dino::codec::{json_to_req, json_to_res, req_to_json, res_to_json, Json};
use dino::error::WorkerError;
use dino::model::{Req, Res};

fn sample_req(body: Option<String>) -> Req {
    Req::builder()
        .method("GET".to_string())
        .url("http://localhost/hello/world?x=1".to_string())
        .query(vec![("x".to_string(), "1".to_string())])
        .params(vec![("name".to_string(), "world".to_string())])
        .headers(vec![("host".to_string(), "localhost".to_string())])
        .body(body)
        .build()
}

#[test]
fn req_round_trips_through_json() {
    let req = sample_req(Some("payload".to_string()));
    let j = req_to_json(&req);
    let back = json_to_req(&j).unwrap();
    assert_eq!(back.method, req.method);
    assert_eq!(back.url, req.url);
    assert_eq!(back.query, req.query);
    assert_eq!(back.params, req.params);
    assert_eq!(back.headers, req.headers);
    assert_eq!(back.body, req.body);
}

#[test]
fn absent_body_and_empty_body_stay_distinct() {
    let absent = json_to_req(&req_to_json(&sample_req(None))).unwrap();
    assert_eq!(absent.body, None);
    let empty = json_to_req(&req_to_json(&sample_req(Some(String::new())))).unwrap();
    assert_eq!(empty.body, Some(String::new()));
}

#[test]
fn res_round_trips_through_json() {
    let res = Res::new(
        200,
        vec![("content-type".to_string(), "application/json".to_string())],
        Some("{\"ok\":true}".to_string()),
    );
    let j = res_to_json(&res);
    let back = json_to_res(&j).unwrap();
    assert_eq!(back.status, 200);
    assert_eq!(back.headers, res.headers);
    assert_eq!(back.body, res.body);
}

#[test]
fn non_object_result_is_invalid_response_shape() {
    let err = json_to_res(&Json::Str("nope".to_string())).unwrap_err();
    assert!(matches!(err, WorkerError::InvalidResponseShape));
}

#[test]
fn out_of_range_status_is_invalid_response_shape() {
    let j = Json::Obj(vec![
        ("status".to_string(), Json::Num(42)),
        ("headers".to_string(), Json::Obj(vec![])),
        ("body".to_string(), Json::Null),
    ]);
    let err = json_to_res(&j).unwrap_err();
    assert!(matches!(err, WorkerError::InvalidResponseShape));
}

#[test]
fn res_status_must_be_in_range() {
    assert!(Res::try_new(99, vec![], None).is_none());
    assert!(Res::try_new(100, vec![], None).is_some());
    assert!(Res::try_new(599, vec![], None).is_some());
    assert!(Res::try_new(600, vec![], None).is_none());
}
