//! The requests that open a subscription.

use vstd::prelude::*;

use super::digits;
use super::json::{self, array_value, json_string, number_value, object_value, text_value, Json};
use super::models::{FieldElement, L2TransactionFinalityStatus, L2TransactionStatus};

verus! {

type NodeFelt = starknet_rust::core::types::Felt;

type NodeAddressFilter = starknet_rust::core::types::AddressFilter;

type NodeBlockId = starknet_rust::core::types::ConfirmedBlockId;

type NodeFinality = starknet_rust::core::types::L2TransactionFinalityStatus;

type NodeL2Status = starknet_rust::core::types::L2TransactionStatus;

type NodeTag = starknet_rust::core::types::SubscriptionTag;

type NodeEvents = starknet_rust::core::types::requests::SubscribeEventsRequest;

type NodeReceipts = starknet_rust::core::types::requests::SubscribeNewTransactionReceiptsRequest;

type NodeTransactions = starknet_rust::core::types::requests::SubscribeNewTransactionsRequest;

/// A block that is confirmed.
#[derive(Debug, Clone, Copy, PartialEq, Eq)]
pub enum ConfirmedBlockId {
    Hash(FieldElement),
    Number(u64),
    Latest,
    L1Accepted,
}

/// The contracts whose events are asked for.
#[derive(Debug, PartialEq, Eq)]
pub enum AddressFilter {
    Single(FieldElement),
    Multiple(Vec<FieldElement>),
}

/// What a subscription's notifications carry besides.
#[derive(Debug, Clone, Copy, PartialEq, Eq, Structural)]
pub enum SubscriptionTag {
    IncludeProofFacts,
}

/// Asks for events: those of certain contracts, and with certain keys, where it names some.
#[derive(Debug, PartialEq, Eq)]
pub struct SubscribeEventsRequest {
    pub from_address: Option<AddressFilter>,
    pub keys: Option<Vec<Vec<FieldElement>>>,
    pub block_id: Option<ConfirmedBlockId>,
    pub finality_status: Option<L2TransactionFinalityStatus>,
}

/// Asks for transaction receipts.
#[derive(Debug, PartialEq, Eq)]
pub struct SubscribeNewTransactionReceiptsRequest {
    pub finality_status: Option<Vec<L2TransactionFinalityStatus>>,
    pub sender_address: Option<Vec<FieldElement>>,
}

/// Asks for transactions.
#[derive(Debug, PartialEq, Eq)]
pub struct SubscribeNewTransactionsRequest {
    pub finality_status: Option<Vec<L2TransactionStatus>>,
    pub sender_address: Option<Vec<FieldElement>>,
    pub tags: Option<Vec<SubscriptionTag>>,
}

/// The contents of an [`AddressFilter`].
pub enum AddressFilterView {
    Single(FieldElement),
    Multiple(Seq<FieldElement>),
}

/// The contents of a [`SubscribeEventsRequest`].
pub struct SubscribeEventsRequestView {
    pub from_address: Option<AddressFilterView>,
    pub keys: Option<Seq<Seq<FieldElement>>>,
    pub block_id: Option<ConfirmedBlockId>,
    pub finality_status: Option<L2TransactionFinalityStatus>,
}

/// The contents of a [`SubscribeNewTransactionReceiptsRequest`].
pub struct SubscribeNewTransactionReceiptsRequestView {
    pub finality_status: Option<Seq<L2TransactionFinalityStatus>>,
    pub sender_address: Option<Seq<FieldElement>>,
}

/// The contents of a [`SubscribeNewTransactionsRequest`].
pub struct SubscribeNewTransactionsRequestView {
    pub finality_status: Option<Seq<L2TransactionStatus>>,
    pub sender_address: Option<Seq<FieldElement>>,
    pub tags: Option<Seq<SubscriptionTag>>,
}

/// The contents of a list that may be there.
pub open spec fn optional_list<T>(list: Option<Vec<T>>) -> Option<Seq<T>> {
    match list {
        Some(list) => Some(list@),
        None => None,
    }
}

/// The contents of event keys that may be there.
pub open spec fn optional_keys(keys: Option<Vec<Vec<FieldElement>>>) -> Option<
    Seq<Seq<FieldElement>>,
> {
    match keys {
        Some(keys) => Some(keys@.map_values(|any: Vec<FieldElement>| any@)),
        None => None,
    }
}

impl View for AddressFilter {
    type V = AddressFilterView;

    open spec fn view(&self) -> AddressFilterView {
        match self {
            AddressFilter::Single(address) => AddressFilterView::Single(*address),
            AddressFilter::Multiple(addresses) => AddressFilterView::Multiple(addresses@),
        }
    }
}

impl View for SubscribeEventsRequest {
    type V = SubscribeEventsRequestView;

    open spec fn view(&self) -> SubscribeEventsRequestView {
        SubscribeEventsRequestView {
            from_address: match self.from_address {
                Some(filter) => Some(filter@),
                None => None,
            },
            keys: optional_keys(self.keys),
            block_id: self.block_id,
            finality_status: self.finality_status,
        }
    }
}

impl View for SubscribeNewTransactionReceiptsRequest {
    type V = SubscribeNewTransactionReceiptsRequestView;

    open spec fn view(&self) -> SubscribeNewTransactionReceiptsRequestView {
        SubscribeNewTransactionReceiptsRequestView {
            finality_status: optional_list(self.finality_status),
            sender_address: optional_list(self.sender_address),
        }
    }
}

impl View for SubscribeNewTransactionsRequest {
    type V = SubscribeNewTransactionsRequestView;

    open spec fn view(&self) -> SubscribeNewTransactionsRequestView {
        SubscribeNewTransactionsRequestView {
            finality_status: optional_list(self.finality_status),
            sender_address: optional_list(self.sender_address),
            tags: optional_list(self.tags),
        }
    }
}

/// Members of an object, with one more where its value is there.
pub open spec fn with_member(
    members: Map<Seq<char>, Json>,
    name: Seq<char>,
    value: Option<Json>,
) -> Map<Seq<char>, Json> {
    match value {
        Some(value) => members.insert(name, value),
        None => members,
    }
}

pub open spec fn felts_json(felts: Seq<FieldElement>) -> Json {
    Json::Array(felts.map_values(|felt: FieldElement| Json::Text(digits::felt_text(felt))))
}

impl ConfirmedBlockId {
    /// What a block is written as: by its hash or its number, else by a tag.
    pub open spec fn to_json(self) -> Json {
        match self {
            ConfirmedBlockId::Hash(hash) => Json::Object(
                map!["block_hash"@ => Json::Text(digits::felt_text(hash))],
            ),
            ConfirmedBlockId::Number(number) => Json::Object(
                map!["block_number"@ => Json::Unsigned(number)],
            ),
            ConfirmedBlockId::Latest => Json::Text("latest"@),
            ConfirmedBlockId::L1Accepted => Json::Text("l1_accepted"@),
        }
    }
}

impl AddressFilterView {
    /// What a filter is written as: one address, or a list of them.
    pub open spec fn to_json(self) -> Json {
        match self {
            AddressFilterView::Single(address) => Json::Text(digits::felt_text(address)),
            AddressFilterView::Multiple(addresses) => felts_json(addresses),
        }
    }
}

impl L2TransactionFinalityStatus {
    pub open spec fn to_json(self) -> Json {
        match self {
            L2TransactionFinalityStatus::PreConfirmed => Json::Text("PRE_CONFIRMED"@),
            L2TransactionFinalityStatus::AcceptedOnL2 => Json::Text("ACCEPTED_ON_L2"@),
        }
    }
}

impl L2TransactionStatus {
    pub open spec fn to_json(self) -> Json {
        match self {
            L2TransactionStatus::Received => Json::Text("RECEIVED"@),
            L2TransactionStatus::Candidate => Json::Text("CANDIDATE"@),
            L2TransactionStatus::PreConfirmed => Json::Text("PRE_CONFIRMED"@),
            L2TransactionStatus::AcceptedOnL2 => Json::Text("ACCEPTED_ON_L2"@),
        }
    }
}

impl SubscriptionTag {
    pub open spec fn to_json(self) -> Json {
        match self {
            SubscriptionTag::IncludeProofFacts => Json::Text("INCLUDE_PROOF_FACTS"@),
        }
    }
}

impl SubscribeEventsRequestView {
    /// What the request is written as: an object with a member for each part that is there.
    pub open spec fn to_json(self) -> Json {
        let members = with_member(
            Map::empty(),
            "from_address"@,
            match self.from_address {
                Some(filter) => Some(filter.to_json()),
                None => None,
            },
        );
        let members = with_member(
            members,
            "keys"@,
            match self.keys {
                Some(keys) => Some(
                    Json::Array(keys.map_values(|any: Seq<FieldElement>| felts_json(any))),
                ),
                None => None,
            },
        );
        let members = with_member(
            members,
            "block_id"@,
            match self.block_id {
                Some(block_id) => Some(block_id.to_json()),
                None => None,
            },
        );
        Json::Object(
            with_member(
                members,
                "finality_status"@,
                match self.finality_status {
                    Some(status) => Some(status.to_json()),
                    None => None,
                },
            ),
        )
    }
}

impl SubscribeNewTransactionReceiptsRequestView {
    /// What the request is written as: an object with a member for each part that is there.
    pub open spec fn to_json(self) -> Json {
        let members = with_member(
            Map::empty(),
            "finality_status"@,
            match self.finality_status {
                Some(statuses) => Some(
                    Json::Array(
                        statuses.map_values(
                            |status: L2TransactionFinalityStatus| status.to_json(),
                        ),
                    ),
                ),
                None => None,
            },
        );
        Json::Object(
            with_member(
                members,
                "sender_address"@,
                match self.sender_address {
                    Some(addresses) => Some(felts_json(addresses)),
                    None => None,
                },
            ),
        )
    }
}

impl SubscribeNewTransactionsRequestView {
    /// What the request is written as: an object with a member for each part that is there.
    pub open spec fn to_json(self) -> Json {
        let members = with_member(
            Map::empty(),
            "finality_status"@,
            match self.finality_status {
                Some(statuses) => Some(
                    Json::Array(
                        statuses.map_values(|status: L2TransactionStatus| status.to_json()),
                    ),
                ),
                None => None,
            },
        );
        let members = with_member(
            members,
            "sender_address"@,
            match self.sender_address {
                Some(addresses) => Some(felts_json(addresses)),
                None => None,
            },
        );
        Json::Object(
            with_member(
                members,
                "tags"@,
                match self.tags {
                    Some(tags) => Some(
                        Json::Array(tags.map_values(|tag: SubscriptionTag| tag.to_json())),
                    ),
                    None => None,
                },
            ),
        )
    }
}

/// `serde_json::to_value` of a `ConfirmedBlockId`: an object with the hash or the number,
/// else the tag. A field element is written as `0x` and the hexadecimal digits of its
/// number, in lower case and without leading zeros; bytes that are not below the prime
/// stand for their remainder. It does not fail.
#[verifier::external_body]
fn block_id_value(block_id: ConfirmedBlockId) -> (value: serde_json::Value)
    ensures
        json::json_view(value) == block_id.to_json(),
{
    let block_id = match block_id {
        ConfirmedBlockId::Hash(hash) => NodeBlockId::Hash(NodeFelt::from_bytes_be(&hash.bytes)),
        ConfirmedBlockId::Number(number) => NodeBlockId::Number(number),
        ConfirmedBlockId::Latest => NodeBlockId::Latest,
        ConfirmedBlockId::L1Accepted => NodeBlockId::L1Accepted,
    };
    serde_json::to_value(block_id).expect("serialization")
}

/// `serde_json::to_value` of a `SubscribeEventsRequest` for one contract or for all: an
/// object with a member for each part that is there, a key as the list of the values that
/// are looked for in its place, field elements as in [`block_id_value`]. It does not fail.
#[verifier::external_body]
fn events_value(
    address: Option<FieldElement>,
    keys: Option<Vec<Vec<FieldElement>>>,
    block_id: Option<ConfirmedBlockId>,
    finality_status: Option<L2TransactionFinalityStatus>,
) -> (value: serde_json::Value)
    ensures
        json::json_view(value) == (SubscribeEventsRequestView {
            from_address: match address {
                Some(address) => Some(AddressFilterView::Single(address)),
                None => None,
            },
            keys: optional_keys(keys),
            block_id,
            finality_status,
        }).to_json(),
{
    let felt = |element: FieldElement| NodeFelt::from_bytes_be(&element.bytes);
    serde_json::to_value(NodeEvents {
        from_address: address.map(felt).map(NodeAddressFilter::Single),
        keys: keys.map(|keys| keys.into_iter().map(|any| any.into_iter().map(felt).collect()).collect()),
        block_id: block_id.map(|block_id| match block_id {
            ConfirmedBlockId::Hash(hash) => NodeBlockId::Hash(felt(hash)),
            ConfirmedBlockId::Number(number) => NodeBlockId::Number(number),
            ConfirmedBlockId::Latest => NodeBlockId::Latest,
            ConfirmedBlockId::L1Accepted => NodeBlockId::L1Accepted }),
        finality_status: finality_status.map(|status| match status {
            L2TransactionFinalityStatus::PreConfirmed => NodeFinality::PreConfirmed,
            L2TransactionFinalityStatus::AcceptedOnL2 => NodeFinality::AcceptedOnL2 }),
    }).unwrap()
}

/// `serde_json::to_value` of a `SubscribeEventsRequest` for a list of contracts: an object as
/// in [`events_value`], with the list of the addresses. It does not fail.
#[verifier::external_body]
fn listed_events_value(
    addresses: Vec<FieldElement>,
    keys: Option<Vec<Vec<FieldElement>>>,
    block_id: Option<ConfirmedBlockId>,
    finality_status: Option<L2TransactionFinalityStatus>,
) -> (value: serde_json::Value)
    ensures
        json::json_view(value) == (SubscribeEventsRequestView {
            from_address: Some(AddressFilterView::Multiple(addresses@)),
            keys: optional_keys(keys),
            block_id,
            finality_status,
        }).to_json(),
{
    let felt = |element: FieldElement| NodeFelt::from_bytes_be(&element.bytes);
    serde_json::to_value(NodeEvents {
        from_address: Some(NodeAddressFilter::Multiple(addresses.into_iter().map(felt).collect())),
        keys: keys.map(|keys| keys.into_iter().map(|any| any.into_iter().map(felt).collect()).collect()),
        block_id: block_id.map(|block_id| match block_id {
            ConfirmedBlockId::Hash(hash) => NodeBlockId::Hash(felt(hash)),
            ConfirmedBlockId::Number(number) => NodeBlockId::Number(number),
            ConfirmedBlockId::Latest => NodeBlockId::Latest,
            ConfirmedBlockId::L1Accepted => NodeBlockId::L1Accepted }),
        finality_status: finality_status.map(|status| match status {
            L2TransactionFinalityStatus::PreConfirmed => NodeFinality::PreConfirmed,
            L2TransactionFinalityStatus::AcceptedOnL2 => NodeFinality::AcceptedOnL2 }),
    }).unwrap()
}

/// `serde_json::to_value` of a `SubscribeNewTransactionReceiptsRequest`: an object with a
/// member for each part that is there, field elements as in [`block_id_value`]. It does not
/// fail.
#[verifier::external_body]
fn receipts_value(request: SubscribeNewTransactionReceiptsRequest) -> (value: serde_json::Value)
    ensures
        json::json_view(value) == request@.to_json(),
{
    let finality = |status: L2TransactionFinalityStatus| match status {
        L2TransactionFinalityStatus::PreConfirmed => NodeFinality::PreConfirmed,
        L2TransactionFinalityStatus::AcceptedOnL2 => NodeFinality::AcceptedOnL2,
    };
    let felt = |element: FieldElement| NodeFelt::from_bytes_be(&element.bytes);
    let request = NodeReceipts {
        finality_status: request.finality_status.map(|list| list.into_iter().map(finality).collect()),
        sender_address: request.sender_address.map(|list| list.into_iter().map(felt).collect()),
    };
    serde_json::to_value(request).expect("serialization")
}

/// `serde_json::to_value` of a `SubscribeNewTransactionsRequest`: an object with a member for
/// each part that is there, field elements as in [`block_id_value`]. It does not fail.
#[verifier::external_body]
fn transactions_value(request: SubscribeNewTransactionsRequest) -> (value: serde_json::Value)
    ensures
        json::json_view(value) == request@.to_json(),
{
    let status = |status: L2TransactionStatus| match status {
        L2TransactionStatus::Received => NodeL2Status::Received,
        L2TransactionStatus::Candidate => NodeL2Status::Candidate,
        L2TransactionStatus::PreConfirmed => NodeL2Status::PreConfirmed,
        L2TransactionStatus::AcceptedOnL2 => NodeL2Status::AcceptedOnL2,
    };
    let felt = |element: FieldElement| NodeFelt::from_bytes_be(&element.bytes);
    let tag = |_: SubscriptionTag| NodeTag::IncludeProofFacts;
    let request = NodeTransactions {
        finality_status: request.finality_status.map(|list| list.into_iter().map(status).collect()),
        sender_address: request.sender_address.map(|list| list.into_iter().map(felt).collect()),
        tags: request.tags.map(|list| list.into_iter().map(tag).collect()),
    };
    serde_json::to_value(request).expect("serialization")
}

impl SubscribeEventsRequest {
    /// What the request is written as.
    fn into_params(self) -> (params: serde_json::Value)
        ensures
            json::json_view(params) == self@.to_json(),
    {
        match self.from_address {
            None => events_value(None, self.keys, self.block_id, self.finality_status),
            Some(AddressFilter::Single(address)) => events_value(
                Some(address),
                self.keys,
                self.block_id,
                self.finality_status,
            ),
            Some(AddressFilter::Multiple(addresses)) => listed_events_value(
                addresses,
                self.keys,
                self.block_id,
                self.finality_status,
            ),
        }
    }
}

/// Asks for new heads.
#[derive(Debug)]
pub struct SubscribeRequest {
    pub block_id: ConfirmedBlockId,
}

/// Asks for one kind of live data.
#[derive(Debug)]
pub enum LiveSubscribeRequest {
    Events(SubscribeEventsRequest),
    NewTransactionReceipts(SubscribeNewTransactionReceiptsRequest),
    NewTransactions(SubscribeNewTransactionsRequest),
}

/// The contents of a [`LiveSubscribeRequest`].
pub enum LiveSubscribeRequestView {
    Events(SubscribeEventsRequestView),
    NewTransactionReceipts(SubscribeNewTransactionReceiptsRequestView),
    NewTransactions(SubscribeNewTransactionsRequestView),
}

impl View for LiveSubscribeRequest {
    type V = LiveSubscribeRequestView;

    open spec fn view(&self) -> LiveSubscribeRequestView {
        match self {
            LiveSubscribeRequest::Events(request) => LiveSubscribeRequestView::Events(request@),
            LiveSubscribeRequest::NewTransactionReceipts(request) => {
                LiveSubscribeRequestView::NewTransactionReceipts(request@)
            },
            LiveSubscribeRequest::NewTransactions(request) => {
                LiveSubscribeRequestView::NewTransactions(request@)
            },
        }
    }
}

impl LiveSubscribeRequestView {
    /// The number that the node's answer refers to the request by.
    pub open spec fn id(self) -> u64 {
        match self {
            LiveSubscribeRequestView::Events(_) => 1,
            LiveSubscribeRequestView::NewTransactionReceipts(_) => 2,
            LiveSubscribeRequestView::NewTransactions(_) => 3,
        }
    }

    pub open spec fn method(self) -> Seq<char> {
        match self {
            LiveSubscribeRequestView::Events(_) => "starknet_subscribeEvents"@,
            LiveSubscribeRequestView::NewTransactionReceipts(_) => {
                "starknet_subscribeNewTransactionReceipts"@
            },
            LiveSubscribeRequestView::NewTransactions(_) => "starknet_subscribeNewTransactions"@,
        }
    }

    pub open spec fn params(self) -> Json {
        match self {
            LiveSubscribeRequestView::Events(request) => request.to_json(),
            LiveSubscribeRequestView::NewTransactionReceipts(request) => request.to_json(),
            LiveSubscribeRequestView::NewTransactions(request) => request.to_json(),
        }
    }

    /// What the request is written as.
    pub open spec fn payload(self) -> Json {
        payload_json(self.id(), self.method(), self.params())
    }
}

/// A call of the node's method `method`.
pub open spec fn payload_json(id: u64, method: Seq<char>, params: Json) -> Json {
    Json::Object(
        map![
            "jsonrpc"@ => Json::Text("2.0"@),
            "id"@ => Json::Unsigned(id),
            "method"@ => Json::Text(method),
            "params"@ => params,
        ],
    )
}

/// Writes a call of the node's method `method`.
pub fn payload_string(id: u64, method: &str, params: serde_json::Value) -> (text: String)
    ensures
        text@ == json::json_text(payload_json(id, method@, json::json_view(params))),
{
    let mut members: Vec<(String, serde_json::Value)> = Vec::new();
    members.push((String::from_str("jsonrpc"), text_value("2.0")));
    members.push((String::from_str("id"), number_value(id)));
    members.push((String::from_str("method"), text_value(method)));
    members.push((String::from_str("params"), params));
    proof {
        reveal_strlit("jsonrpc");
        reveal_strlit("id");
        reveal_strlit("method");
        reveal_strlit("params");
        reveal_with_fuel(json::named_members, 5);
        let all = members@;
        assert(all[0].0@ == "jsonrpc"@ && all[0].0@.len() == 7);
        assert(all[1].0@ == "id"@ && all[1].0@.len() == 2);
        assert(all[2].0@ == "method"@ && all[2].0@.len() == 6 && all[2].0@[0] == 'm');
        assert(all[3].0@ == "params"@ && all[3].0@.len() == 6 && all[3].0@[0] == 'p');
        assert(all.drop_last().drop_last().drop_last().drop_last() =~= Seq::empty());
        assert(json::named_members(all) =~= map![
            "jsonrpc"@ => Json::Text("2.0"@),
            "id"@ => Json::Unsigned(id),
            "method"@ => Json::Text(method@),
            "params"@ => json::json_view(params),
        ]);
    }
    json_string(&object_value(members))
}

impl SubscribeRequest {
    /// What the request is written as.
    pub open spec fn payload(self) -> Json {
        payload_json(
            0,
            "starknet_subscribeNewHeads"@,
            Json::Array(seq![self.block_id.to_json()]),
        )
    }

    pub fn into_string(self) -> (text: String)
        ensures
            text@ == json::json_text(self.payload()),
    {
        let mut params: Vec<serde_json::Value> = Vec::new();
        params.push(block_id_value(self.block_id));
        assert(params@.map_values(|item: serde_json::Value| json::json_view(item)) =~= seq![
            self.block_id.to_json(),
        ]);
        payload_string(0, "starknet_subscribeNewHeads", array_value(params))
    }
}

impl LiveSubscribeRequest {
    pub fn into_string(self) -> (text: String)
        ensures
            text@ == json::json_text(self@.payload()),
    {
        match self {
            LiveSubscribeRequest::Events(request) => payload_string(
                1,
                "starknet_subscribeEvents",
                request.into_params(),
            ),
            LiveSubscribeRequest::NewTransactionReceipts(request) => payload_string(
                2,
                "starknet_subscribeNewTransactionReceipts",
                receipts_value(request),
            ),
            LiveSubscribeRequest::NewTransactions(request) => payload_string(
                3,
                "starknet_subscribeNewTransactions",
                transactions_value(request),
            ),
        }
    }
}

/// The events that a live subscription is to push; all of them where a part is missing.
#[derive(Debug)]
pub struct StarknetLiveEventFilter {
    pub from_address: Option<FieldElement>,
    pub keys: Option<Vec<Vec<FieldElement>>>,
}

/// The contents of a [`StarknetLiveEventFilter`].
pub struct StarknetLiveEventFilterView {
    pub from_address: Option<FieldElement>,
    pub keys: Option<Seq<Seq<FieldElement>>>,
}

impl View for StarknetLiveEventFilter {
    type V = StarknetLiveEventFilterView;

    open spec fn view(&self) -> StarknetLiveEventFilterView {
        StarknetLiveEventFilterView {
            from_address: self.from_address,
            keys: optional_keys(self.keys),
        }
    }
}

impl Clone for StarknetLiveEventFilter {
    fn clone(&self) -> (copy: Self)
        ensures
            copy@ == self@,
    {
        let keys = match &self.keys {
            Some(keys) => {
                let copy = keys.clone();
                proof {
                    assert forall|i: int| 0 <= i < keys@.len() implies (#[trigger] copy@[i])@
                        == keys@[i]@ by {
                        assert(copy@[i]@ =~= keys@[i]@);
                    }
                    assert(optional_keys(Some(copy))->0 =~= optional_keys(self.keys)->0);
                }
                Some(copy)
            },
            None => None,
        };
        StarknetLiveEventFilter { from_address: self.from_address, keys }
    }
}

impl Default for StarknetLiveEventFilter {
    fn default() -> (filter: Self)
        ensures
            filter.from_address is None,
            filter.keys is None,
    {
        StarknetLiveEventFilter { from_address: None, keys: None }
    }
}

/// The request for the pre-confirmed events that pass the filter.
pub open spec fn events_request(filter: StarknetLiveEventFilterView) -> LiveSubscribeRequestView {
    LiveSubscribeRequestView::Events(
        SubscribeEventsRequestView {
            from_address: match filter.from_address {
                Some(address) => Some(AddressFilterView::Single(address)),
                None => None,
            },
            keys: filter.keys,
            block_id: None,
            finality_status: Some(L2TransactionFinalityStatus::PreConfirmed),
        },
    )
}

/// The request for pre-confirmed receipts.
pub open spec fn receipts_request() -> LiveSubscribeRequestView {
    LiveSubscribeRequestView::NewTransactionReceipts(
        SubscribeNewTransactionReceiptsRequestView {
            finality_status: Some(seq![L2TransactionFinalityStatus::PreConfirmed]),
            sender_address: None,
        },
    )
}

/// The request for pre-confirmed transactions.
pub open spec fn transactions_request() -> LiveSubscribeRequestView {
    LiveSubscribeRequestView::NewTransactions(
        SubscribeNewTransactionsRequestView {
            finality_status: Some(seq![L2TransactionStatus::PreConfirmed]),
            sender_address: None,
            tags: None,
        },
    )
}

/// The requests of a live subscription, by the connection that each is sent over: events
/// have one of their own, receipts and transactions share the last.
pub open spec fn live_requests(filter: Option<StarknetLiveEventFilterView>) -> Seq<
    Seq<LiveSubscribeRequestView>,
> {
    let records = seq![receipts_request(), transactions_request()];
    match filter {
        Some(filter) => seq![seq![events_request(filter)], records],
        None => seq![records],
    }
}

/// The contents of requests that are grouped by connection.
pub open spec fn grouped(groups: Seq<Vec<LiveSubscribeRequest>>) -> Seq<
    Seq<LiveSubscribeRequestView>,
> {
    groups.map_values(
        |group: Vec<LiveSubscribeRequest>|
            group@.map_values(|request: LiveSubscribeRequest| request@),
    )
}

/// The requests of a live subscription, one group for each connection.
pub fn live_subscribe_request_groups(event_filter: Option<StarknetLiveEventFilter>) -> (groups: Vec<
    Vec<LiveSubscribeRequest>,
>)
    ensures
        grouped(groups@) == live_requests(
            match event_filter {
                Some(filter) => Some(filter@),
                None => None,
            },
        ),
{
    let mut groups: Vec<Vec<LiveSubscribeRequest>> = Vec::new();
    if let Some(event_filter) = event_filter {
        let mut events: Vec<LiveSubscribeRequest> = Vec::new();
        events.push(
            LiveSubscribeRequest::Events(
                SubscribeEventsRequest {
                    from_address: match event_filter.from_address {
                        Some(address) => Some(AddressFilter::Single(address)),
                        None => None,
                    },
                    keys: event_filter.keys,
                    block_id: None,
                    finality_status: Some(L2TransactionFinalityStatus::PreConfirmed),
                },
            ),
        );
        assert(events@.map_values(|request: LiveSubscribeRequest| request@) =~= seq![
            events_request(event_filter@),
        ]);
        groups.push(events);
    }
    let mut finality: Vec<L2TransactionFinalityStatus> = Vec::new();
    finality.push(L2TransactionFinalityStatus::PreConfirmed);
    let mut status: Vec<L2TransactionStatus> = Vec::new();
    status.push(L2TransactionStatus::PreConfirmed);
    assert(finality@ =~= seq![L2TransactionFinalityStatus::PreConfirmed]);
    assert(status@ =~= seq![L2TransactionStatus::PreConfirmed]);
    let mut records: Vec<LiveSubscribeRequest> = Vec::new();
    records.push(
        LiveSubscribeRequest::NewTransactionReceipts(
            SubscribeNewTransactionReceiptsRequest {
                finality_status: Some(finality),
                sender_address: None,
            },
        ),
    );
    records.push(
        LiveSubscribeRequest::NewTransactions(
            SubscribeNewTransactionsRequest {
                finality_status: Some(status),
                sender_address: None,
                tags: None,
            },
        ),
    );
    assert(records@.map_values(|request: LiveSubscribeRequest| request@) =~= seq![
        receipts_request(),
        transactions_request(),
    ]);
    groups.push(records);
    groups
}

/// What a request's parameters say of the finality of what it asks for, whether they name
/// one status or list some.
pub open spec fn asks_for_pre_confirmed(params: Json) -> bool {
    params.member("finality_status"@) matches Some(status) && (status == Json::Text(
        "PRE_CONFIRMED"@,
    ) || status == Json::Array(seq![Json::Text("PRE_CONFIRMED"@)]))
}

/// Every request of a live subscription, as it is written, asks for pre-confirmed data and
/// for nothing else.
pub proof fn law_live_requests_are_pre_confirmed(
    filter: Option<StarknetLiveEventFilterView>,
    group: int,
    index: int,
)
    requires
        0 <= group < live_requests(filter).len(),
        0 <= index < live_requests(filter)[group].len(),
    ensures
        asks_for_pre_confirmed(live_requests(filter)[group][index].params()),
        live_requests(filter)[group][index].payload().member("params"@) == Some(
            live_requests(filter)[group][index].params(),
        ),
{
    reveal_strlit("finality_status");
    reveal_strlit("sender_address");
    reveal_strlit("tags");
    reveal_strlit("jsonrpc");
    reveal_strlit("id");
    reveal_strlit("method");
    reveal_strlit("params");
    let finality = seq![L2TransactionFinalityStatus::PreConfirmed];
    assert(finality.map_values(|status: L2TransactionFinalityStatus| status.to_json()) =~= seq![
        Json::Text("PRE_CONFIRMED"@),
    ]);
    let status = seq![L2TransactionStatus::PreConfirmed];
    assert(status.map_values(|status: L2TransactionStatus| status.to_json()) =~= seq![
        Json::Text("PRE_CONFIRMED"@),
    ]);
}

/// Events are asked for exactly where there is a filter, first and over a connection of
/// their own; receipts and transactions are always asked for, over the last one.
pub proof fn law_events_have_their_own_connection(filter: Option<StarknetLiveEventFilterView>)
    ensures
        live_requests(filter).len() == if filter is Some {
            2int
        } else {
            1
        },
        live_requests(filter).last() == seq![receipts_request(), transactions_request()],
        forall|group: int, index: int|
            0 <= group < live_requests(filter).len() && 0 <= index < live_requests(
                filter,
            )[group].len() && #[trigger] live_requests(filter)[group][index] is Events ==> group
                == 0 && live_requests(filter)[group].len() == 1,
{
}

/// What the filter says is what is asked for.
pub proof fn law_filter_is_asked_for(filter: StarknetLiveEventFilterView)
    ensures
        events_request(filter).params().member("from_address"@) == (match filter.from_address {
            Some(address) => Some(Json::Text(digits::felt_text(address))),
            None => None,
        }),
        events_request(filter).params().member("keys"@) == (match filter.keys {
            Some(keys) => Some(
                Json::Array(keys.map_values(|any: Seq<FieldElement>| felts_json(any))),
            ),
            None => None,
        }),
        events_request(filter).params().member("block_id"@) is None,
{
    reveal_strlit("from_address");
    reveal_strlit("keys");
    reveal_strlit("block_id");
    reveal_strlit("finality_status");
    assert("from_address"@.len() == 12 && "keys"@.len() == 4 && "block_id"@.len() == 8
        && "finality_status"@.len() == 15);
}

/// The ids of the requests of one subscription differ, and differ from that of new heads.
pub proof fn law_request_ids_differ(a: LiveSubscribeRequestView, b: LiveSubscribeRequestView)
    ensures
        a.id() == b.id() ==> a.method() == b.method(),
        a.id() != 0,
{
}

} // verus!
