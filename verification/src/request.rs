//! The bodies of the JSON-RPC requests that the audit sends.

use vstd::prelude::*;
use crate::json::{items_of, member_found, text_of, unsigned_of, Json};

verus! {

/// The envelope of a JSON-RPC 2.0 request: exactly the members `jsonrpc`,
/// `id`, `method` and `params`, with version 2.0, id 1 and the given method.
pub open spec fn is_request(body: Json, method: Seq<char>) -> bool {
    &&& body matches Json::Object(members) && members@.len() == 4
    &&& text_of(body.field("jsonrpc"@)) == Some("2.0"@)
    &&& unsigned_of(body.field("id"@)) == Some(1u64)
    &&& text_of(body.field("method"@)) == Some(method)
    &&& items_of(body.field("params"@)) is Some
}

/// The parameters of a request.
pub open spec fn params_of(body: Json) -> Seq<Json> {
    items_of(body.field("params"@)).unwrap()
}

/// The options of a block request: JSON encoding, full transaction details,
/// no rewards, and transaction version 0 at most.
pub open spec fn is_block_options(options: Json) -> bool {
    &&& options matches Json::Object(members) && members@.len() == 4
    &&& text_of(options.field("encoding"@)) == Some("json"@)
    &&& text_of(options.field("transactionDetails"@)) == Some("full"@)
    &&& options.field("rewards"@) == Some(Json::Bool(false))
    &&& unsigned_of(options.field("maxSupportedTransactionVersion"@)) == Some(0u64)
}

/// The options of a transaction request: JSON encoding at the commitment
/// level `confirmed`.
pub open spec fn is_transaction_options(options: Json) -> bool {
    &&& options matches Json::Object(members) && members@.len() == 2
    &&& text_of(options.field("encoding"@)) == Some("json"@)
    &&& text_of(options.field("commitment"@)) == Some("confirmed"@)
}

/// A request with the given method and parameters.
pub fn request(method: &str, params: Vec<Json>) -> (body: Json)
    ensures
        is_request(body, method@),
        params_of(body) == params@,
{
    let mut members: Vec<(String, Json)> = Vec::new();
    members.push(("jsonrpc".to_owned(), Json::Text("2.0".to_owned())));
    members.push(("id".to_owned(), Json::Unsigned(1)));
    members.push(("method".to_owned(), Json::Text(method.to_owned())));
    members.push(("params".to_owned(), Json::Array(params)));
    proof {
        reveal_strlit("jsonrpc");
        assert("jsonrpc"@.len() == 7);
        reveal_strlit("id");
        assert("id"@.len() == 2);
        reveal_strlit("method");
        assert("method"@.len() == 6);
        reveal_strlit("params");
        assert("params"@.len() == 6);
        assert("method"@[0] != "params"@[0]);
        member_found(members@, "jsonrpc"@, 0, 0);
        member_found(members@, "id"@, 0, 1);
        member_found(members@, "method"@, 0, 2);
        member_found(members@, "params"@, 0, 3);
    }
    Json::Object(members)
}

/// The body of the request for the block of `slot`.
pub fn get_block_request(slot: u64) -> (body: Json)
    ensures
        is_request(body, "getBlock"@),
        params_of(body).len() == 2,
        params_of(body)[0] == Json::Unsigned(slot),
        is_block_options(params_of(body)[1]),
{
    let mut options: Vec<(String, Json)> = Vec::new();
    options.push(("encoding".to_owned(), Json::Text("json".to_owned())));
    options.push(("transactionDetails".to_owned(), Json::Text("full".to_owned())));
    options.push(("rewards".to_owned(), Json::Bool(false)));
    options.push(("maxSupportedTransactionVersion".to_owned(), Json::Unsigned(0)));
    proof {
        reveal_strlit("encoding");
        assert("encoding"@.len() == 8);
        reveal_strlit("transactionDetails");
        assert("transactionDetails"@.len() == 18);
        reveal_strlit("rewards");
        assert("rewards"@.len() == 7);
        reveal_strlit("maxSupportedTransactionVersion");
        assert("maxSupportedTransactionVersion"@.len() == 30);
        member_found(options@, "encoding"@, 0, 0);
        member_found(options@, "transactionDetails"@, 0, 1);
        member_found(options@, "rewards"@, 0, 2);
        member_found(options@, "maxSupportedTransactionVersion"@, 0, 3);
    }
    let options = Json::Object(options);
    let mut params: Vec<Json> = Vec::new();
    params.push(Json::Unsigned(slot));
    params.push(options);
    request("getBlock", params)
}

/// The body of the request for the detail of the transaction with the given
/// signature.
pub fn get_transaction_request(signature: &str) -> (body: Json)
    ensures
        is_request(body, "getTransaction"@),
        params_of(body).len() == 2,
        params_of(body)[0].text() == Some(signature@),
        is_transaction_options(params_of(body)[1]),
{
    let mut options: Vec<(String, Json)> = Vec::new();
    options.push(("encoding".to_owned(), Json::Text("json".to_owned())));
    options.push(("commitment".to_owned(), Json::Text("confirmed".to_owned())));
    proof {
        reveal_strlit("encoding");
        assert("encoding"@.len() == 8);
        reveal_strlit("commitment");
        assert("commitment"@.len() == 10);
        member_found(options@, "encoding"@, 0, 0);
        member_found(options@, "commitment"@, 0, 1);
    }
    let options = Json::Object(options);
    let mut params: Vec<Json> = Vec::new();
    params.push(Json::Text(signature.to_owned()));
    params.push(options);
    request("getTransaction", params)
}

} // verus!
