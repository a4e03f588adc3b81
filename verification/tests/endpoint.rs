use erniebot_rs::endpoint::{
    build_invoke_body, build_url, classify_reply, embedding_base_url, EmbeddingEndpoint,
    EmbeddingModel,
};
use erniebot_rs::errors::ApiError;
use erniebot_rs::json::JsonVal;
use erniebot_rs::response::Response;

#[test]
fn build_url_joins_base_and_model() {
    let u = build_url("https://example.com/api/", "embedding-v1").unwrap();
    assert_eq!(u, "https://example.com/api/embedding-v1");
}

#[test]
fn unparsable_base_is_a_url_error() {
    assert!(matches!(
        build_url("not a url", "m"),
        Err(ApiError::UrlError)
    ));
}

#[test]
fn endpoint_resolves_model_url() {
    let ep = EmbeddingEndpoint::new(EmbeddingModel::EmbeddingV1, "tok".to_string()).unwrap();
    assert_eq!(
        ep.url(),
        "https://aip.baidubce.com/rpc/2.0/ai_custom/v1/wenxinworkshop/embeddings/embedding-v1"
    );
    assert_eq!(ep.access_token(), "tok");
    assert_eq!(
        embedding_base_url(),
        "https://aip.baidubce.com/rpc/2.0/ai_custom/v1/wenxinworkshop/embeddings/"
    );
}

#[test]
fn embedding_model_names() {
    assert_eq!(EmbeddingModel::EmbeddingV1.to_string(), "embedding-v1");
    assert_eq!(EmbeddingModel::BgeLargeZh.to_string(), "bge_large_zh");
    assert_eq!(EmbeddingModel::BgeLargeEn.to_string(), "bge_large_en");
    assert_eq!(EmbeddingModel::Tao8k.to_string(), "tao_8k");
}

#[test]
fn error_code_reply_is_rejected() {
    let reply = Response::from_json_text("{\"error_code\": 17, \"error_msg\": \"quota\"}").unwrap();
    match classify_reply(reply) {
        Err(ApiError::RemoteRejected(_)) => {}
        _ => panic!("a reply with an error_code must be rejected, never wrapped"),
    }
}

#[test]
fn clean_reply_passes_through() {
    let reply = Response::from_json_text("{\"data\":[1,2]}").unwrap();
    assert!(classify_reply(reply).is_ok());
}

#[test]
fn invoke_body_carries_input_and_user() {
    let input = vec!["first".to_string(), "second".to_string()];
    let body = build_invoke_body(&input, Some("u1".to_string()));
    match body.get("input") {
        Some(JsonVal::Arr(elems)) => {
            assert_eq!(elems.len(), 2);
            match &elems[0] {
                JsonVal::Str(s) => assert_eq!(s, "first"),
                _ => panic!("inputs must stay strings"),
            }
        }
        _ => panic!("the body must carry input as an array"),
    }
    match body.get("user_id") {
        Some(JsonVal::Str(s)) => assert_eq!(s, "u1"),
        _ => panic!("the body must carry the caller's user_id"),
    }
}

#[test]
fn invoke_body_without_user_has_no_user_field() {
    let input = vec!["only".to_string()];
    let body = build_invoke_body(&input, None);
    assert!(body.get("user_id").is_none());
    assert!(body.get("input").is_some());
}
