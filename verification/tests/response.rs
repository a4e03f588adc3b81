use erniebot_rs::errors::ResponseError;
use erniebot_rs::json::{json_get, parse_json, JsonVal};
use erniebot_rs::response::{encode_blocks, Response, Responses};

#[test]
fn whole_result_reassembles_hello() {
    let body = "data: {\"result\":\"Hel\"}\n\ndata: {\"result\":\"lo\"}\n\n".to_string();
    let batch = Responses::from_text(body).unwrap();
    assert_eq!(batch.get_whole_result().unwrap(), "Hello");
}

#[test]
fn malformed_block_fails_whole_parse() {
    let body = "data: {\"result\":\"a\"}\n\nNOPE\n\n".to_string();
    match Responses::from_text(body) {
        Err(ResponseError::MalformedFrame(part)) => assert_eq!(part, "NOPE"),
        _ => panic!("a block without the prefix must fail the whole parse"),
    }
}

#[test]
fn invalid_json_fails_whole_parse() {
    let body = "data: {\"result\":\"a\"}\n\ndata: {oops}\n\n".to_string();
    assert!(matches!(
        Responses::from_text(body),
        Err(ResponseError::InvalidJson)
    ));
}

#[test]
fn empty_body_is_an_empty_batch() {
    let batch = Responses::from_text(String::new()).unwrap();
    assert_eq!(batch.get_results().unwrap().len(), 0);
    assert_eq!(batch.get_whole_result().unwrap(), "");
}

#[test]
fn round_trip_preserves_order_and_text() {
    let payloads = vec![
        "{\"result\":\"one \"}".to_string(),
        "{\"result\":\"two \"}".to_string(),
        "{\"result\":\"three\"}".to_string(),
    ];
    let body = encode_blocks(&payloads);
    assert_eq!(
        body,
        "data: {\"result\":\"one \"}\n\ndata: {\"result\":\"two \"}\n\ndata: {\"result\":\"three\"}\n\n"
    );
    let batch = Responses::from_text(body).unwrap();
    let results = batch.get_results().unwrap();
    assert_eq!(results, vec!["one ", "two ", "three"]);
    assert_eq!(batch.get_whole_result().unwrap(), "one two three");
}

#[test]
fn missing_result_field() {
    let frame = Response::new(parse_json("{\"other\":1}").unwrap());
    assert!(matches!(
        frame.get_result(),
        Err(ResponseError::MissingField)
    ));
}

#[test]
fn numeric_result_is_wrong_type() {
    let frame = Response::new(parse_json("{\"result\":7}").unwrap());
    assert!(matches!(frame.get_result(), Err(ResponseError::WrongType)));
}

#[test]
fn first_failing_frame_wins() {
    let body = "data: {\"result\":\"ok\"}\n\ndata: {\"result\":3}\n\ndata: {\"x\":1}\n\n"
        .to_string();
    let batch = Responses::from_text(body).unwrap();
    assert!(matches!(batch.get_results(), Err(ResponseError::WrongType)));
    assert!(matches!(
        batch.get_whole_result(),
        Err(ResponseError::WrongType)
    ));
}

#[test]
fn parse_json_decodes_fields() {
    let v = parse_json("{\"a\":\"x\",\"b\":true,\"c\":null,\"d\":[1,2]}").unwrap();
    match json_get(&v, "a") {
        Some(JsonVal::Str(s)) => assert_eq!(s, "x"),
        _ => panic!("field a must decode to a string"),
    }
    assert!(matches!(json_get(&v, "b"), Some(JsonVal::Bool(true))));
    assert!(matches!(json_get(&v, "c"), Some(JsonVal::Null)));
    match json_get(&v, "d") {
        Some(JsonVal::Arr(elems)) => assert_eq!(elems.len(), 2),
        _ => panic!("field d must decode to an array"),
    }
    assert!(json_get(&v, "e").is_none());
    assert!(parse_json("not json").is_err());
}

#[test]
fn frame_get_looks_fields_up() {
    let frame = Response::from_json_text("{\"result\":\"r\",\"usage\":{\"total\":2}}").unwrap();
    assert!(frame.get("usage").is_some());
    assert!(frame.get("absent").is_none());
    assert_eq!(frame.get_result().unwrap(), "r");
    match frame.get_raw_response() {
        JsonVal::Obj(fields) => assert_eq!(fields.len(), 2),
        _ => panic!("the frame must wrap an object"),
    }
}
