//! The embedding endpoint: url construction, request-body construction,
//! and classification of the provider's reply.
//!
//! The transport call itself (sending the request, reading the reply's
//! text) happens outside this crate; the pieces here say exactly what is
//! sent and how every possible reply is classified.

use crate::errors::ApiError;
use crate::json::{spec_lookup, JsonVal};
use crate::response::Response;
use crate::strutil::spec_opt_view;
use vstd::prelude::*;

verus! {

/// The embedding model families the provider serves.
#[derive(Debug, Clone, Copy, PartialEq, Eq, Structural)]
pub enum EmbeddingModel {
    EmbeddingV1,
    BgeLargeZh,
    BgeLargeEn,
    Tao8k,
}

impl EmbeddingModel {
    /// The model's path segment under the embeddings base url.
    pub open spec fn spec_name(&self) -> Seq<char> {
        match self {
            EmbeddingModel::EmbeddingV1 => "embedding-v1"@,
            EmbeddingModel::BgeLargeZh => "bge_large_zh"@,
            EmbeddingModel::BgeLargeEn => "bge_large_en"@,
            EmbeddingModel::Tao8k => "tao_8k"@,
        }
    }

    /// The model's path segment under the embeddings base url.
    pub fn to_string(&self) -> (r: String)
        ensures
            r@ == self.spec_name(),
    {
        match self {
            EmbeddingModel::EmbeddingV1 => String::from_str("embedding-v1"),
            EmbeddingModel::BgeLargeZh => String::from_str("bge_large_zh"),
            EmbeddingModel::BgeLargeEn => String::from_str("bge_large_en"),
            EmbeddingModel::Tao8k => String::from_str("tao_8k"),
        }
    }
}

/// The fixed base url under which the embedding models live.
pub open spec fn spec_embedding_base_url() -> Seq<char> {
    "https://aip.baidubce.com/rpc/2.0/ai_custom/v1/wenxinworkshop/embeddings/"@
}

/// The fixed base url under which the embedding models live.
pub fn embedding_base_url() -> (r: &'static str)
    ensures
        r@ == spec_embedding_base_url(),
{
    "https://aip.baidubce.com/rpc/2.0/ai_custom/v1/wenxinworkshop/embeddings/"
}

/// What `url::Url` makes of parsing `base` and resolving `path` against
/// it: the rendered text of the joined url, or `None` where either step
/// fails. A function of the two texts alone.
pub uninterp spec fn joined_url(base: Seq<char>, path: Seq<char>) -> Option<Seq<char>>;

/// Relies on `url::Url::parse` and `url::Url::join`: parsing the base and
/// resolving the path against it depend on the two texts alone, and
/// `as_str` renders the outcome back to text.
#[verifier::external_body]
fn join_url(base: &str, path: &str) -> (r: Option<String>)
    ensures
        match r {
            Some(u) => joined_url(base@, path@) == Some(u@),
            None => joined_url(base@, path@) is None,
        },
{
    match url::Url::parse(base) {
        Ok(b) => match b.join(path) {
            Ok(u) => Some(u.as_str().to_owned()),
            Err(_) => None,
        },
        Err(_) => None,
    }
}

/// Build the url for a model under a base url; a failure of either the
/// base or the join is a `UrlError`.
pub fn build_url(url: &str, model: &str) -> (r: Result<String, ApiError>)
    ensures
        match joined_url(url@, model@) {
            Some(u) => r matches Ok(s) && s@ == u,
            None => r matches Err(e) && e is UrlError,
        },
{
    match join_url(url, model) {
        Some(u) => Ok(u),
        None => Err(ApiError::UrlError),
    }
}

/// A sequence of JSON strings holding exactly these texts, in order.
pub open spec fn spec_is_str_arr(elems: Seq<JsonVal>, strs: Seq<Seq<char>>) -> bool {
    &&& elems.len() == strs.len()
    &&& forall|i: int|
        0 <= i < elems.len() ==> ((#[trigger] elems[i]) matches JsonVal::Str(s) && s@ == strs[i])
}

/// The body of an invoke call: an object carrying `input` as the array of
/// the given texts, then `user_id` where the caller gave one, and nothing
/// else.
pub open spec fn spec_is_invoke_body(
    v: JsonVal,
    input: Seq<Seq<char>>,
    user_id: Option<Seq<char>>,
) -> bool {
    match v {
        JsonVal::Obj(fields) => {
            &&& fields@.len() == (if user_id is Some {
                2int
            } else {
                1int
            })
            &&& fields@[0].0@ == "input"@
            &&& (fields@[0].1 matches JsonVal::Arr(elems) && spec_is_str_arr(elems@, input))
            &&& (match user_id {
                Some(u) => fields@[1].0@ == "user_id"@ && (fields@[1].1 matches JsonVal::Str(s)
                    && s@ == u),
                None => true,
            })
        },
        _ => false,
    }
}

/// Build the JSON body of an invoke call.
#[verifier::loop_isolation(false)]
pub fn build_invoke_body(input: &Vec<String>, user_id: Option<String>) -> (r: Response)
    ensures
        spec_is_invoke_body(r.raw(), input.deep_view(), spec_opt_view(user_id)),
{
    let n = input.len();
    let mut elems: Vec<JsonVal> = Vec::new();
    let mut i: usize = 0;
    while i < n
        invariant
            i <= n,
            elems@.len() == i,
            forall|j: int|
                0 <= j < i ==> ((#[trigger] elems@[j]) matches JsonVal::Str(s) && s@
                    == input.deep_view()[j]),
        decreases n - i,
    {
        elems.push(JsonVal::Str(input[i].clone()));
        i += 1;
    }
    let mut fields: Vec<(String, JsonVal)> = Vec::new();
    fields.push((String::from_str("input"), JsonVal::Arr(elems)));
    match user_id {
        Some(u) => fields.push((String::from_str("user_id"), JsonVal::Str(u))),
        None => (),
    }
    Response::new(JsonVal::Obj(fields))
}

/// Classify the provider's decoded reply: a top-level `error_code` field
/// is a rejection, whatever the transport reported; anything else is the
/// result frame.
pub fn classify_reply(reply: Response) -> (r: Result<Response, ApiError>)
    ensures
        spec_lookup(reply.raw(), "error_code"@) is Some ==> (r matches Err(e) && e matches
            ApiError::RemoteRejected(body) && body == reply.raw()),
        spec_lookup(reply.raw(), "error_code"@) is None ==> (r matches Ok(out) && out == reply),
{
    if reply.get("error_code").is_some() {
        Err(ApiError::RemoteRejected(reply.into_raw()))
    } else {
        Ok(reply)
    }
}

/// One endpoint: the resolved model url and the access token every call
/// carries.
#[derive(Debug)]
pub struct EmbeddingEndpoint {
    url: String,
    access_token: String,
}

impl EmbeddingEndpoint {
    /// The resolved url.
    pub closed spec fn spec_url(&self) -> Seq<char> {
        self.url@
    }

    /// The access token the endpoint carries.
    pub closed spec fn spec_access_token(&self) -> Seq<char> {
        self.access_token@
    }

    /// Aim an endpoint at one embedding model, carrying the access token
    /// the credential store handed out.
    pub fn new(model: EmbeddingModel, access_token: String) -> (r: Result<Self, ApiError>)
        ensures
            match joined_url(spec_embedding_base_url(), model.spec_name()) {
                Some(u) => r matches Ok(ep) && ep.spec_url() == u && ep.spec_access_token()
                    == access_token@,
                None => r matches Err(e) && e is UrlError,
            },
    {
        let name = model.to_string();
        match build_url(embedding_base_url(), name.as_str()) {
            Ok(u) => Ok(EmbeddingEndpoint { url: u, access_token }),
            Err(e) => Err(e),
        }
    }

    /// The resolved url, for the transport to post to.
    pub fn url(&self) -> (r: &str)
        ensures
            r@ == self.spec_url(),
    {
        self.url.as_str()
    }

    /// The access token, for the transport to pass as the `access_token`
    /// query parameter.
    pub fn access_token(&self) -> (r: &str)
        ensures
            r@ == self.spec_access_token(),
    {
        self.access_token.as_str()
    }
}

} // verus!
