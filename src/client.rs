use vstd::prelude::*;

use crate::error::ClientError;
use crate::rpc::{entries_view, find_key, lookup, inserted, lemma_inserted_lookup, JsonRpcParams, JsonRpcResponse, ParamsValue, ResponseBody};

verus! {

/// Method that returns the latest block height.
pub const CITA_BLOCK_NUMBER: &'static str = "cita_blockNumber";

/// Method that returns the chain's metadata, `chainId` among it.
pub const CITA_GET_META_DATA: &'static str = "cita_getMetaData";

/// Whether `method` is on the allow-list.
pub open spec fn method_allowed(method: Seq<char>) -> bool {
    method == CITA_BLOCK_NUMBER@ || method == CITA_GET_META_DATA@
}

/// The id that follows `id`, wrapping from the largest value to zero.
pub open spec fn next_request_id(id: u64) -> u64 {
    ((id as int + 1) % 0x1_0000_0000_0000_0000) as u64
}

/// The characters of each string, in order.
pub open spec fn strings_view(v: Seq<String>) -> Seq<Seq<char>> {
    v.map_values(|s: String| s@)
}

/// The chain id reported in the first response, when its result is a map
/// whose `chainId` entry is an integer (truncated to 32 bits).
pub open spec fn chain_id_in(responses: Seq<JsonRpcResponse>) -> Option<u32> {
    if responses.len() == 0 {
        None
    } else {
        match responses[0].body {
            ResponseBody::Success(ParamsValue::Object(entries)) => match lookup(entries_view(entries@), "chainId"@) {
                Some(ParamsValue::Int(n)) => Some(n as u32),
                _ => None,
            },
            _ => None,
        }
    }
}

/// The responses of a batch of `expected` calls, when every call delivered one.
pub open spec fn joined(expected: nat, results: Seq<Option<JsonRpcResponse>>) -> Option<Seq<JsonRpcResponse>> {
    if results.len() == expected && forall|i: int| 0 <= i < results.len() ==> #[trigger] results[i] is Some {
        Some(results.map_values(|o: Option<JsonRpcResponse>| o->0))
    } else {
        None
    }
}

/// `v` is the method name `m`.
pub open spec fn is_method_param(v: Option<ParamsValue>, m: Seq<char>) -> bool {
    v matches Some(ParamsValue::String(s)) && s@ == m
}

/// `v` is the argument list `["latest"]`.
pub open spec fn is_latest_list(v: Option<ParamsValue>) -> bool {
    match v {
        Some(ParamsValue::List(l)) => l@.len() == 1 && match l@[0] {
            ParamsValue::String(s) => s@ == "latest"@,
            _ => false,
        },
        _ => false,
    }
}

/// What a client holds: the request id last used, the endpoints in the order
/// they were added, and the chain id once resolved.
pub struct ClientModel {
    pub id: u64,
    pub urls: Seq<Seq<char>>,
    pub chain_id: Option<u32>,
}

impl ClientModel {
    /// After an endpoint is added.
    pub open spec fn with_url(self, url: Seq<char>) -> ClientModel {
        ClientModel { urls: self.urls.push(url), ..self }
    }

    /// After a call of `method`: an allowed method takes the next id.
    pub open spec fn after_send(self, method: Seq<char>) -> ClientModel {
        if method_allowed(method) {
            ClientModel { id: next_request_id(self.id), ..self }
        } else {
            self
        }
    }

    /// After a chain-id resolution is started: a cached id needs no call.
    pub open spec fn after_resolve(self) -> ClientModel {
        if self.chain_id is Some {
            self
        } else {
            self.after_send(CITA_GET_META_DATA@)
        }
    }

    /// After the metadata responses are handed back: a chain id found in them
    /// is cached, unless one was cached already.
    pub open spec fn after_finish(self, responses: Seq<JsonRpcResponse>) -> ClientModel {
        if self.chain_id is Some {
            self
        } else {
            match chain_id_in(responses) {
                Some(c) => ClientModel { chain_id: Some(c), ..self },
                None => self,
            }
        }
    }

    /// A chain-id resolution from this state needs a network round trip.
    pub open spec fn needs_round_trip(self) -> bool {
        self.chain_id is None
    }
}

/// One logical call, to be sent to every endpoint: the same parameters, with
/// the request id set, go to each address in order.
pub struct RequestBatch {
    pub id: u64,
    pub params: JsonRpcParams,
    pub urls: Vec<String>,
}

impl RequestBatch {
    /// The batch that a client in state `c` builds for `params`: the next id,
    /// set under `"id"`, and one call per endpoint in registration order.
    pub open spec fn planned(self, c: ClientModel, params: Seq<(Seq<char>, ParamsValue)>) -> bool {
        &&& self.id == next_request_id(c.id)
        &&& self.params@ == inserted(params, "id"@, ParamsValue::Int(self.id))
        &&& strings_view(self.urls@) == c.urls
    }

    /// Joins the outcome of each call, in the batch's endpoint order (`None`
    /// where the transport failed). Any failure, or a count that does not
    /// match the endpoints, fails the whole batch.
    pub fn collect_responses(&self, results: Vec<Option<JsonRpcResponse>>) -> (r: Result<Vec<JsonRpcResponse>, ClientError>)
        ensures
            match joined(self.urls@.len(), results@) {
                Some(s) => r matches Ok(v) && v@ == s,
                None => r == Err::<Vec<JsonRpcResponse>, ClientError>(ClientError::TransportFailure),
            },
    {
        let ghost all = results@;
        if results.len() != self.urls.len() {
            return Err(ClientError::TransportFailure);
        }
        let mut pending = results;
        let mut out: Vec<JsonRpcResponse> = Vec::new();
        while pending.len() > 0
            invariant
                all == results@,
                all.len() == self.urls@.len(),
                all.len() == out@.len() + pending@.len(),
                pending@ == all.subrange(out@.len() as int, all.len() as int),
                forall|i: int| 0 <= i < out@.len() ==> (#[trigger] all[i] is Some && out@[i] == all[i]->0),
            decreases pending@.len(),
        {
            let ghost k = out@.len() as int;
            assert(pending@[0] == all[k]);
            match pending.remove(0) {
                Some(resp) => {
                    out.push(resp);
                    assert(pending@ =~= all.subrange(out@.len() as int, all.len() as int));
                },
                None => {
                    assert(!(all[k] is Some));
                    assert(!(forall|i: int| 0 <= i < all.len() ==> #[trigger] all[i] is Some));
                    return Err(ClientError::TransportFailure);
                },
            }
        }
        assert(out@ =~= all.map_values(|o: Option<JsonRpcResponse>| o->0));
        Ok(out)
    }
}

/// The next step of a chain-id resolution.
pub enum ChainIdStep {
    /// The id is cached: no call is needed.
    Known(u32),
    /// The metadata call to send; hand its responses to `finish_chain_id`.
    Fetch(RequestBatch),
}

/// A client of one chain: its endpoints, the request id last used, and the
/// chain id once resolved. Each instance is independent.
pub struct Client {
    id: u64,
    url: Vec<String>,
    chain_id: Option<u32>,
}

impl View for Client {
    type V = ClientModel;

    closed spec fn view(&self) -> ClientModel {
        ClientModel { id: self.id, urls: strings_view(self.url@), chain_id: self.chain_id }
    }
}

/// Whether `method` is on the allow-list.
fn is_allowed(method: &str) -> (r: bool)
    ensures
        r == method_allowed(method@),
{
    let m = String::from_str(method);
    m == String::from_str(CITA_BLOCK_NUMBER) || m == String::from_str(CITA_GET_META_DATA)
}

impl Client {
    /// A client with no endpoints, request id 0 and no chain id.
    pub fn new() -> (r: Client)
        ensures
            r@ == (ClientModel { id: 0, urls: Seq::empty(), chain_id: None }),
    {
        let r = Client { id: 0, url: Vec::new(), chain_id: None };
        assert(strings_view(r.url@) =~= Seq::empty());
        r
    }

    /// Adds an endpoint; it is not checked until a call is made.
    pub fn add_url(self, url: String) -> (r: Client)
        ensures
            r@ == self@.with_url(url@),
    {
        let mut c = self;
        let ghost before = c.url@;
        c.url.push(url);
        assert(strings_view(c.url@) =~= strings_view(before).push(url@));
        c
    }

    /// The endpoints, in the order they were added.
    pub fn urls(&self) -> (r: &Vec<String>)
        ensures
            strings_view(r@) == self@.urls,
    {
        &self.url
    }

    /// The chain id, once resolved.
    pub fn chain_id(&self) -> (r: Option<u32>)
        ensures
            r == self@.chain_id,
    {
        self.chain_id
    }

    /// Plans one call of `method` to every endpoint. A method off the
    /// allow-list fails with `UnsupportedMethod` and changes nothing;
    /// otherwise the request id advances by one (wrapping) and is set in the
    /// parameters of the returned batch.
    pub fn send_request(&mut self, method: &str, params: JsonRpcParams) -> (r: Result<RequestBatch, ClientError>)
        ensures
            final(self)@ == old(self)@.after_send(method@),
            method_allowed(method@) ==> (r matches Ok(b) && b.planned(old(self)@, params@) && b.id == final(self)@.id),
            !method_allowed(method@) ==> r == Err::<RequestBatch, ClientError>(ClientError::UnsupportedMethod),
    {
        if !is_allowed(method) {
            return Err(ClientError::UnsupportedMethod);
        }
        Ok(self.plan(params))
    }

    /// Takes the next request id and plans a call with it to every endpoint.
    fn plan(&mut self, params: JsonRpcParams) -> (b: RequestBatch)
        ensures
            final(self)@ == (ClientModel { id: next_request_id(old(self)@.id), ..old(self)@ }),
            b.planned(old(self)@, params@),
            b.id == final(self)@.id,
    {
        self.id = self.id.wrapping_add(1);
        let params = params.insert(String::from_str("id"), ParamsValue::Int(self.id));
        let urls = self.url.clone();
        assert(urls@ =~= self.url@);
        RequestBatch { id: self.id, params, urls }
    }

    /// Starts resolving the chain id: a cached id is returned at once;
    /// otherwise the metadata call for the latest block is planned.
    pub fn resolve_chain_id(&mut self) -> (r: ChainIdStep)
        ensures
            final(self)@ == old(self)@.after_resolve(),
            old(self)@.chain_id matches Some(c) ==> r == ChainIdStep::Known(c),
            old(self)@.chain_id is None ==> (r matches ChainIdStep::Fetch(b) && b.id == final(self)@.id
                && b.id == next_request_id(old(self)@.id)
                && strings_view(b.urls@) == old(self)@.urls
                && lookup(b.params@, "id"@) == Some(ParamsValue::Int(b.id))
                && is_method_param(lookup(b.params@, "method"@), CITA_GET_META_DATA@)
                && is_latest_list(lookup(b.params@, "params"@))),
    {
        match self.chain_id {
            Some(c) => ChainIdStep::Known(c),
            None => {
                let mut latest: Vec<ParamsValue> = Vec::new();
                latest.push(ParamsValue::String(String::from_str("latest")));
                let list = ParamsValue::List(latest);
                let ghost lv = list;
                let start = JsonRpcParams::new();
                let base = start.insert(String::from_str("params"), list);
                let method = ParamsValue::String(String::from_str(CITA_GET_META_DATA));
                let ghost mv = method;
                let params = base.insert(String::from_str("method"), method);
                proof {
                    reveal_strlit("method");
                    reveal_strlit("id");
                    reveal_strlit("params");
                    assert("method"@[0] != "id"@[0]);
                    assert("params"@[0] != "id"@[0]);
                    assert("params"@[0] != "method"@[0]);
                    let idv = ParamsValue::Int(next_request_id(self.id));
                    lemma_inserted_lookup(start@, "id"@, "params"@, lv);
                    lemma_inserted_lookup(base@, "params"@, "method"@, mv);
                    lemma_inserted_lookup(params@, "method"@, "id"@, idv);
                    lemma_inserted_lookup(params@, "params"@, "id"@, idv);
                    assert(is_latest_list(lookup(inserted(params@, "id"@, idv), "params"@)));
                }
                ChainIdStep::Fetch(self.plan(params))
            },
        }
    }

    /// Finishes a resolution with the metadata responses: the chain id of the
    /// first response is cached and returned; a response of another shape
    /// yields 0 and caches nothing. A cached id is kept as it is.
    pub fn finish_chain_id(&mut self, responses: &Vec<JsonRpcResponse>) -> (r: u32)
        ensures
            final(self)@ == old(self)@.after_finish(responses@),
            r == match old(self)@.chain_id {
                Some(c) => c,
                None => match chain_id_in(responses@) {
                    Some(c) => c,
                    None => 0,
                },
            },
    {
        if let Some(c) = self.chain_id {
            return c;
        }
        if responses.len() == 0 {
            return 0;
        }
        match &responses[0].body {
            ResponseBody::Success(ParamsValue::Object(entries)) => {
                match find_key(entries, &String::from_str("chainId")) {
                    Some(i) => match &entries[i].1 {
                        ParamsValue::Int(n) => {
                            let c = *n as u32;
                            self.chain_id = Some(c);
                            c
                        },
                        _ => 0,
                    },
                    None => 0,
                }
            },
            _ => 0,
        }
    }
}

/// One call per endpoint, one response per endpoint: a batch planned for
/// `n` endpoints holds `n` calls in registration order, and when it is joined
/// the `i`-th response is the `i`-th endpoint's.
pub proof fn lemma_one_response_per_endpoint(
    c: ClientModel,
    params: Seq<(Seq<char>, ParamsValue)>,
    b: RequestBatch,
    results: Seq<Option<JsonRpcResponse>>,
)
    requires
        b.planned(c, params),
        joined(b.urls@.len(), results) is Some,
    ensures
        b.urls@.len() == c.urls.len(),
        forall|i: int| 0 <= i < c.urls.len() ==> #[trigger] b.urls@[i]@ == c.urls[i],
        joined(b.urls@.len(), results)->0.len() == c.urls.len(),
        forall|i: int|
            0 <= i < c.urls.len() ==> results[i] == Some(#[trigger] joined(b.urls@.len(), results)->0[i]),
{
    assert forall|i: int| 0 <= i < c.urls.len() implies #[trigger] b.urls@[i]@ == c.urls[i] by {
        assert(strings_view(b.urls@)[i] == b.urls@[i]@);
    }
}

/// A method off the allow-list leaves the client as it was: no id is used
/// and no batch is planned.
pub proof fn lemma_unsupported_method_is_inert(c: ClientModel, method: Seq<char>)
    requires
        !method_allowed(method),
    ensures
        c.after_send(method) == c,
{
}

/// Consecutive calls carry consecutive ids: each allowed call takes the id
/// one above the last, modulo 2^64, so the largest id is followed by 0.
pub proof fn lemma_request_ids_consecutive(c: ClientModel, m1: Seq<char>, m2: Seq<char>)
    requires
        method_allowed(m1),
        method_allowed(m2),
    ensures
        c.after_send(m1).id as int == (c.id as int + 1) % 0x1_0000_0000_0000_0000,
        c.after_send(m1).after_send(m2).id as int == (c.after_send(m1).id as int + 1) % 0x1_0000_0000_0000_0000,
        c.id < u64::MAX ==> c.after_send(m1).id == c.id + 1,
        c.id == u64::MAX ==> c.after_send(m1).id == 0,
{
}

/// Once a chain id has been resolved, no later operation asks the network
/// for it again: the cache survives every operation, and a resolution from a
/// cached state changes nothing.
pub proof fn lemma_chain_id_resolved_once(
    c: ClientModel,
    responses: Seq<JsonRpcResponse>,
    url: Seq<char>,
    method: Seq<char>,
    later: Seq<JsonRpcResponse>,
)
    requires
        chain_id_in(responses) is Some,
    ensures
        !c.after_resolve().after_finish(responses).needs_round_trip(),
        ({
            let d = c.after_resolve().after_finish(responses);
            &&& d.after_resolve() == d
            &&& d.after_finish(later) == d
            &&& d.with_url(url).chain_id == d.chain_id
            &&& d.after_send(method).chain_id == d.chain_id
        }),
{
}

} // verus!
