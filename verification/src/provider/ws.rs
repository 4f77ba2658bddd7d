//! The websocket subscriptions of a Starknet node.

use vstd::prelude::*;

use super::digits::{self, decode_hex_hash, FromHexError};
use super::json::{self, extract_result_u64, Json};
use super::models::{
    self, Cursor, EmittedEventWithFinality, EmittedEventWithFinalityView,
    TransactionReceiptWithBlockInfo, TransactionWithL2Status,
};
use super::notification::{self, decode_event, decode_receipt, decode_transaction};

verus! {

/// Why a node's data did not come.
#[derive(Debug, Clone, Copy, PartialEq, Eq, Structural)]
pub enum StarknetProviderError {
    /// A request failed, or its answer makes no sense.
    Request,
}

/// A failure and what it comes from.
#[derive(Debug)]
pub struct ProviderReport<C> {
    pub error: StarknetProviderError,
    pub cause: C,
}

impl<C> ProviderReport<C> {
    /// The report of a request that failed for `cause`.
    pub open spec fn of_request(cause: C) -> ProviderReport<C> {
        ProviderReport { error: StarknetProviderError::Request, cause }
    }

    fn request(cause: C) -> (report: ProviderReport<C>)
        ensures
            report == Self::of_request(cause),
    {
        ProviderReport { error: StarknetProviderError::Request, cause }
    }
}

/// Why a message about new heads makes no sense.
#[derive(Debug)]
pub enum HeadCause {
    /// Its text is not what a node writes.
    Text(serde_json::Error),
    /// The hash of the head is no hexadecimal number.
    BlockHash { text: String, error: FromHexError },
}

/// Why a message about live data makes no sense.
#[derive(Debug)]
pub enum LiveCause {
    /// Its text is not what a node writes.
    Text(serde_json::Error),
    /// The node reports an error.
    Reported(serde_json::Value),
    /// It notifies of an event, but does not hold one.
    Event(serde_json::Error),
    /// It notifies of a receipt, but does not hold one.
    Receipt(serde_json::Error),
    /// It notifies of a transaction, but does not hold one.
    Transaction(serde_json::Error),
}

/// Why a stream yields an error.
#[derive(Debug)]
pub enum StreamCause<E, C> {
    /// The connection failed.
    Connection(E),
    /// A message makes no sense.
    Message(C),
}

/// A message that came over a websocket.
#[derive(Debug)]
pub enum Message<T> {
    /// A text, and what it was decoded to.
    Text(Result<T, serde_json::Error>),
    /// Anything but a text.
    Other,
}

/// A new head message received from the Starknet websocket subscription.
#[derive(Debug)]
pub struct NewHeadMessage {
    pub block_number: u64,
    pub block_hash: models::Hash,
}

/// The text of a message about new heads.
#[derive(Debug)]
pub struct HeadNotification {
    pub params: Option<HeadParams>,
}

/// The parameters of a notification of a new head.
#[derive(Debug)]
pub struct HeadParams {
    pub result: HeadResult,
}

/// A new head, as the node writes it.
#[derive(Debug)]
pub struct HeadResult {
    pub block_hash: String,
    pub block_number: u64,
}

/// A new transaction receipt received from a Starknet websocket subscription.
#[derive(Debug)]
pub struct NewTransactionReceiptMessage {
    pub receipt: TransactionReceiptWithBlockInfo,
    pub transaction_index: Option<u64>,
}

/// A new transaction received from a Starknet websocket subscription.
#[derive(Debug)]
pub struct NewTransactionMessage {
    pub transaction: TransactionWithL2Status,
    pub block_number: Option<u64>,
    pub transaction_index: Option<u64>,
}

/// A new event received from a Starknet websocket subscription.
#[derive(Debug)]
pub struct NewEventMessage {
    pub event: EmittedEventWithFinality,
}

/// A live Starknet transaction, receipt or event websocket notification.
#[derive(Debug)]
pub enum StarknetLiveMessage {
    Transaction(NewTransactionMessage),
    Receipt(NewTransactionReceiptMessage),
    Event(NewEventMessage),
}

/// The contents of a [`StarknetLiveMessage`].
pub enum StarknetLiveMessageView {
    Transaction {
        transaction: TransactionWithL2Status,
        block_number: Option<u64>,
        transaction_index: Option<u64>,
    },
    Receipt { receipt: TransactionReceiptWithBlockInfo, transaction_index: Option<u64> },
    Event { event: EmittedEventWithFinalityView },
}

/// The text of a message about live data.
#[derive(Debug)]
pub struct LiveNotification {
    pub method: Option<String>,
    pub params: Option<serde_json::Value>,
    pub error: Option<serde_json::Value>,
}

impl Clone for NewTransactionReceiptMessage {
    fn clone(&self) -> (copy: Self)
        ensures
            copy == *self,
    {
        NewTransactionReceiptMessage {
            receipt: self.receipt.clone(),
            transaction_index: self.transaction_index,
        }
    }
}

impl Clone for NewTransactionMessage {
    fn clone(&self) -> (copy: Self)
        ensures
            copy == *self,
    {
        NewTransactionMessage {
            transaction: self.transaction.clone(),
            block_number: self.block_number,
            transaction_index: self.transaction_index,
        }
    }
}

impl Clone for NewEventMessage {
    fn clone(&self) -> (copy: Self)
        ensures
            copy.event@ == self.event@,
    {
        NewEventMessage { event: self.event.clone() }
    }
}

impl Clone for StarknetLiveMessage {
    fn clone(&self) -> (copy: Self)
        ensures
            copy@ == self@,
    {
        match self {
            StarknetLiveMessage::Transaction(message) => StarknetLiveMessage::Transaction(
                message.clone(),
            ),
            StarknetLiveMessage::Receipt(message) => StarknetLiveMessage::Receipt(message.clone()),
            StarknetLiveMessage::Event(message) => StarknetLiveMessage::Event(message.clone()),
        }
    }
}

impl View for StarknetLiveMessage {
    type V = StarknetLiveMessageView;

    open spec fn view(&self) -> StarknetLiveMessageView {
        match self {
            StarknetLiveMessage::Transaction(message) => StarknetLiveMessageView::Transaction {
                transaction: message.transaction,
                block_number: message.block_number,
                transaction_index: message.transaction_index,
            },
            StarknetLiveMessage::Receipt(message) => StarknetLiveMessageView::Receipt {
                receipt: message.receipt,
                transaction_index: message.transaction_index,
            },
            StarknetLiveMessage::Event(message) => StarknetLiveMessageView::Event {
                event: message.event@,
            },
        }
    }
}

/// What a message about new heads says: a head's number and hash, nothing, or that the
/// request failed.
pub open spec fn announced_head(message: Message<HeadNotification>) -> Result<
    Option<(u64, Seq<u8>)>,
    ProviderReport<HeadCause>,
> {
    match message {
        Message::Other => Ok(None),
        Message::Text(Err(error)) => Err(ProviderReport::of_request(HeadCause::Text(error))),
        Message::Text(Ok(notification)) => match notification.params {
            None => Ok(None),
            Some(params) => match digits::felt_bytes(params.result.block_hash@) {
                Some(bytes) => Ok(Some((params.result.block_number, models::fixed_width(bytes)))),
                None => Err(
                    ProviderReport::of_request(
                        HeadCause::BlockHash {
                            text: params.result.block_hash,
                            error: digits::felt_error(params.result.block_hash@),
                        },
                    ),
                ),
            },
        },
    }
}

/// The contents of what a message was found to say of a head.
pub open spec fn head_outcome(head: Result<Option<NewHeadMessage>, ProviderReport<HeadCause>>) -> Result<
    Option<(u64, Seq<u8>)>,
    ProviderReport<HeadCause>,
> {
    match head {
        Ok(Some(head)) => Ok(Some(head.position())),
        Ok(None) => Ok(None),
        Err(error) => Err(error),
    }
}

impl NewHeadMessage {
    pub fn cursor(&self) -> (cursor: Cursor)
        ensures
            cursor.number == self.block_number,
            cursor.hash@ == self.block_hash@,
    {
        Cursor::new(self.block_number, self.block_hash.clone())
    }

    /// The number and the hash of the head.
    pub open spec fn position(self) -> (u64, Seq<u8>) {
        (self.block_number, self.block_hash@)
    }

    /// The head that a message announces, if it announces one.
    pub fn try_from_message(msg: Message<HeadNotification>) -> (head: Result<
        Option<Self>,
        ProviderReport<HeadCause>,
    >)
        ensures
            head_outcome(head) == announced_head(msg),
    {
        let notification = match msg {
            Message::Text(Ok(notification)) => notification,
            Message::Text(Err(error)) => {
                return Err(ProviderReport::request(HeadCause::Text(error)));
            },
            Message::Other => return Ok(None),
        };
        match notification.params {
            None => Ok(None),
            Some(params) => match decode_hex_hash(params.result.block_hash.as_str()) {
                Ok(block_hash) => Ok(
                    Some(NewHeadMessage { block_number: params.result.block_number, block_hash }),
                ),
                Err(error) => Err(
                    ProviderReport::request(
                        HeadCause::BlockHash { text: params.result.block_hash, error },
                    ),
                ),
            },
        }
    }
}

/// What an event notification says, by the event that it decodes to.
pub open spec fn event_message(decoded: Result<EmittedEventWithFinalityView, serde_json::Error>) -> Result<
    Option<StarknetLiveMessageView>,
    ProviderReport<LiveCause>,
> {
    match decoded {
        Ok(event) => Ok(Some(StarknetLiveMessageView::Event { event })),
        Err(error) => Err(ProviderReport::of_request(LiveCause::Event(error))),
    }
}

/// What a receipt notification says, by the receipt that it decodes to.
pub open spec fn receipt_message(
    decoded: Result<TransactionReceiptWithBlockInfo, serde_json::Error>,
    transaction_index: Option<u64>,
) -> Result<Option<StarknetLiveMessageView>, ProviderReport<LiveCause>> {
    match decoded {
        Ok(receipt) => Ok(Some(StarknetLiveMessageView::Receipt { receipt, transaction_index })),
        Err(error) => Err(ProviderReport::of_request(LiveCause::Receipt(error))),
    }
}

/// What a transaction notification says, by the transaction that it decodes to.
pub open spec fn transaction_message(
    decoded: Result<TransactionWithL2Status, serde_json::Error>,
    block_number: Option<u64>,
    transaction_index: Option<u64>,
) -> Result<Option<StarknetLiveMessageView>, ProviderReport<LiveCause>> {
    match decoded {
        Ok(transaction) => Ok(
            Some(
                StarknetLiveMessageView::Transaction {
                    transaction,
                    block_number,
                    transaction_index,
                },
            ),
        ),
        Err(error) => Err(ProviderReport::of_request(LiveCause::Transaction(error))),
    }
}

/// What a notification of live data says, by its method and its parameters; nothing where
/// the method is another.
pub open spec fn notified(method: Seq<char>, params: Json) -> Result<
    Option<StarknetLiveMessageView>,
    ProviderReport<LiveCause>,
> {
    if method == "starknet_subscriptionEvents"@ {
        event_message(notification::decoded_event(params))
    } else if method == "starknet_subscriptionNewTransactionReceipts"@ {
        receipt_message(
            notification::decoded_receipt(params),
            params.result_number("transaction_index"@),
        )
    } else if method == "starknet_subscriptionNewTransaction"@ {
        transaction_message(
            notification::decoded_transaction(params),
            params.result_number("block_number"@),
            params.result_number("transaction_index"@),
        )
    } else {
        Ok(None)
    }
}

/// What a message about live data says: an error that the node reports counts as a request
/// that failed, and whatever is no notification says nothing.
pub open spec fn live_message(message: Message<LiveNotification>) -> Result<
    Option<StarknetLiveMessageView>,
    ProviderReport<LiveCause>,
> {
    match message {
        Message::Other => Ok(None),
        Message::Text(Err(error)) => Err(ProviderReport::of_request(LiveCause::Text(error))),
        Message::Text(Ok(notification)) => match notification.error {
            Some(error) => Err(ProviderReport::of_request(LiveCause::Reported(error))),
            None => match (notification.method, notification.params) {
                (Some(method), Some(params)) => notified(method@, json::json_view(params)),
                _ => Ok(None),
            },
        },
    }
}

/// The contents of what a message was found to say.
pub open spec fn outcome(parsed: Result<Option<StarknetLiveMessage>, ProviderReport<LiveCause>>) -> Result<
    Option<StarknetLiveMessageView>,
    ProviderReport<LiveCause>,
> {
    match parsed {
        Ok(Some(message)) => Ok(Some(message@)),
        Ok(None) => Ok(None),
        Err(error) => Err(error),
    }
}

impl StarknetLiveMessage {
    /// What an event notification says, once it is decoded.
    pub fn from_event(decoded: Result<EmittedEventWithFinality, serde_json::Error>) -> (parsed: Result<
        Option<Self>,
        ProviderReport<LiveCause>,
    >)
        ensures
            outcome(parsed) == event_message(
                match decoded {
                    Ok(event) => Ok(event@),
                    Err(error) => Err(error),
                },
            ),
    {
        match decoded {
            Ok(event) => Ok(Some(StarknetLiveMessage::Event(NewEventMessage { event }))),
            Err(error) => Err(ProviderReport::request(LiveCause::Event(error))),
        }
    }

    /// What a receipt notification says, once it is decoded.
    pub fn from_receipt(
        decoded: Result<TransactionReceiptWithBlockInfo, serde_json::Error>,
        transaction_index: Option<u64>,
    ) -> (parsed: Result<Option<Self>, ProviderReport<LiveCause>>)
        ensures
            outcome(parsed) == receipt_message(decoded, transaction_index),
    {
        match decoded {
            Ok(receipt) => Ok(
                Some(
                    StarknetLiveMessage::Receipt(
                        NewTransactionReceiptMessage { receipt, transaction_index },
                    ),
                ),
            ),
            Err(error) => Err(ProviderReport::request(LiveCause::Receipt(error))),
        }
    }

    /// What a transaction notification says, once it is decoded.
    pub fn from_transaction(
        decoded: Result<TransactionWithL2Status, serde_json::Error>,
        block_number: Option<u64>,
        transaction_index: Option<u64>,
    ) -> (parsed: Result<Option<Self>, ProviderReport<LiveCause>>)
        ensures
            outcome(parsed) == transaction_message(decoded, block_number, transaction_index),
    {
        match decoded {
            Ok(transaction) => Ok(
                Some(
                    StarknetLiveMessage::Transaction(
                        NewTransactionMessage { transaction, block_number, transaction_index },
                    ),
                ),
            ),
            Err(error) => Err(ProviderReport::request(LiveCause::Transaction(error))),
        }
    }

    /// The live data that a message carries, if it carries some.
    pub fn try_from_message(msg: Message<LiveNotification>) -> (parsed: Result<
        Option<Self>,
        ProviderReport<LiveCause>,
    >)
        ensures
            outcome(parsed) == live_message(msg),
    {
        let notification = match msg {
            Message::Text(Ok(notification)) => notification,
            Message::Text(Err(error)) => {
                return Err(ProviderReport::request(LiveCause::Text(error)));
            },
            Message::Other => return Ok(None),
        };
        if let Some(error) = notification.error {
            return Err(ProviderReport::request(LiveCause::Reported(error)));
        }
        let method = match notification.method {
            Some(method) => method,
            None => return Ok(None),
        };
        let params = match notification.params {
            Some(params) => params,
            None => return Ok(None),
        };
        if method == String::from_str("starknet_subscriptionEvents") {
            Self::from_event(decode_event(params))
        } else if method == String::from_str("starknet_subscriptionNewTransactionReceipts") {
            let transaction_index = extract_result_u64(&params, "transaction_index");
            Self::from_receipt(decode_receipt(params), transaction_index)
        } else if method == String::from_str("starknet_subscriptionNewTransaction") {
            let block_number = extract_result_u64(&params, "block_number");
            let transaction_index = extract_result_u64(&params, "transaction_index");
            Self::from_transaction(decode_transaction(params), block_number, transaction_index)
        } else {
            Ok(None)
        }
    }
}

/// Whether something has come, and what.
#[derive(Debug)]
pub enum Polled<T> {
    Ready(T),
    Pending,
}

/// The report of a stream on a message that makes no sense.
pub open spec fn message_report<E, C>(report: ProviderReport<C>) -> ProviderReport<
    StreamCause<E, C>,
> {
    ProviderReport { error: report.error, cause: StreamCause::Message(report.cause) }
}

/// The next item of a stream of new heads, by what came over the connection: a message
/// that announces no head leaves the stream pending, the end of the connection ends it.
pub open spec fn next_head<E>(
    received: Polled<Option<Result<Message<HeadNotification>, E>>>,
) -> Polled<Option<Result<(u64, Seq<u8>), ProviderReport<StreamCause<E, HeadCause>>>>> {
    match received {
        Polled::Pending => Polled::Pending,
        Polled::Ready(None) => Polled::Ready(None),
        Polled::Ready(Some(Err(error))) => Polled::Ready(
            Some(Err(ProviderReport::of_request(StreamCause::Connection(error)))),
        ),
        Polled::Ready(Some(Ok(message))) => match announced_head(message) {
            Ok(None) => Polled::Pending,
            Ok(Some(head)) => Polled::Ready(Some(Ok(head))),
            Err(report) => Polled::Ready(Some(Err(message_report(report)))),
        },
    }
}

/// The contents of an item of a stream of new heads.
pub open spec fn head_content<E>(
    item: Polled<Option<Result<NewHeadMessage, ProviderReport<StreamCause<E, HeadCause>>>>>,
) -> Polled<Option<Result<(u64, Seq<u8>), ProviderReport<StreamCause<E, HeadCause>>>>> {
    match item {
        Polled::Pending => Polled::Pending,
        Polled::Ready(None) => Polled::Ready(None),
        Polled::Ready(Some(Ok(head))) => Polled::Ready(Some(Ok(head.position()))),
        Polled::Ready(Some(Err(report))) => Polled::Ready(Some(Err(report))),
    }
}

/// The next item of a stream of new heads, by what came over the connection.
pub fn poll_new_head<E>(
    received: Polled<Option<Result<Message<HeadNotification>, E>>>,
) -> (item: Polled<Option<Result<NewHeadMessage, ProviderReport<StreamCause<E, HeadCause>>>>>)
    ensures
        head_content(item) == next_head(received),
{
    match received {
        Polled::Pending => Polled::Pending,
        Polled::Ready(None) => Polled::Ready(None),
        Polled::Ready(Some(Ok(message))) => match NewHeadMessage::try_from_message(message) {
            Ok(None) => Polled::Pending,
            Ok(Some(head)) => Polled::Ready(Some(Ok(head))),
            Err(report) => Polled::Ready(
                Some(
                    Err(
                        ProviderReport {
                            error: report.error,
                            cause: StreamCause::Message(report.cause),
                        },
                    ),
                ),
            ),
        },
        Polled::Ready(Some(Err(error))) => Polled::Ready(
            Some(Err(ProviderReport::request(StreamCause::Connection(error)))),
        ),
    }
}

/// The item of a stream of live data that what came over the connection makes: none where
/// it carries no live data.
pub open spec fn live_item<E>(received: Result<Message<LiveNotification>, E>) -> Option<
    Result<StarknetLiveMessageView, ProviderReport<StreamCause<E, LiveCause>>>,
> {
    match received {
        Err(error) => Some(Err(ProviderReport::of_request(StreamCause::Connection(error)))),
        Ok(message) => match live_message(message) {
            Ok(Some(content)) => Some(Ok(content)),
            Ok(None) => None,
            Err(report) => Some(Err(message_report(report))),
        },
    }
}

/// The items of a stream of live data, by what came over the connection.
pub open spec fn live_items<E>(received: Seq<Result<Message<LiveNotification>, E>>) -> Seq<
    Result<StarknetLiveMessageView, ProviderReport<StreamCause<E, LiveCause>>>,
>
    decreases received.len(),
{
    if received.len() == 0 {
        Seq::empty()
    } else {
        let before = live_items(received.drop_last());
        match live_item(received.last()) {
            Some(item) => before.push(item),
            None => before,
        }
    }
}

/// The contents of an item of a stream of live data.
pub open spec fn item_content<E>(
    item: Option<Result<StarknetLiveMessage, ProviderReport<StreamCause<E, LiveCause>>>>,
) -> Option<Result<StarknetLiveMessageView, ProviderReport<StreamCause<E, LiveCause>>>> {
    match item {
        Some(Ok(message)) => Some(Ok(message@)),
        Some(Err(error)) => Some(Err(error)),
        None => None,
    }
}

/// The item of a stream of live data that a message makes: none where it carries none.
pub fn decode_live_message<E>(received: Result<Message<LiveNotification>, E>) -> (item: Option<
    Result<StarknetLiveMessage, ProviderReport<StreamCause<E, LiveCause>>>,
>)
    ensures
        item_content(item) == live_item(received),
{
    match received {
        Ok(message) => match StarknetLiveMessage::try_from_message(message) {
            Ok(Some(message)) => Some(Ok(message)),
            Ok(None) => None,
            Err(report) => Some(
                Err(
                    ProviderReport {
                        error: report.error,
                        cause: StreamCause::Message(report.cause),
                    },
                ),
            ),
        },
        Err(error) => Some(Err(ProviderReport::request(StreamCause::Connection(error)))),
    }
}

/// A stream of live data is decoded one message after the other: the items keep the order
/// of the messages, and nothing that came before, an error included, changes what a later
/// message makes.
pub proof fn law_streams_are_decoded_in_order<E>(
    before: Seq<Result<Message<LiveNotification>, E>>,
    after: Seq<Result<Message<LiveNotification>, E>>,
)
    ensures
        live_items(before + after) == live_items(before) + live_items(after),
    decreases after.len(),
{
    let all = before + after;
    if after.len() == 0 {
        assert(all =~= before);
        assert(live_items(before) + live_items(after) =~= live_items(before));
    } else {
        law_streams_are_decoded_in_order(before, after.drop_last());
        assert(all.drop_last() =~= before + after.drop_last());
        assert(live_items(all) =~= live_items(before) + live_items(after));
    }
}

/// An error that the node reports is never passed over, whatever stands beside it.
pub proof fn law_reported_errors_are_errors(notification: LiveNotification)
    requires
        notification.error is Some,
    ensures
        live_message(Message::Text(Ok(notification))) is Err,
        live_message(Message::Text(Ok(notification)))->Err_0 == ProviderReport::of_request(
            LiveCause::Reported(notification.error->0),
        ),
{
}

/// A message without a method, such as the node's answer to a request, is passed over.
pub proof fn law_answers_are_passed_over(notification: LiveNotification)
    requires
        notification.error is None,
        notification.method is None,
    ensures
        live_message(Message::Text(Ok(notification))) is Ok,
        live_message(Message::Text(Ok(notification)))->Ok_0 is None,
{
}

/// What a notification says is of the kind that its method announces.
pub proof fn law_methods_announce_kinds(method: Seq<char>, params: Json)
    requires
        notified(method, params) is Ok,
        notified(method, params)->Ok_0 is Some,
    ensures
        method == (match notified(method, params)->Ok_0->0 {
            StarknetLiveMessageView::Event { .. } => "starknet_subscriptionEvents"@,
            StarknetLiveMessageView::Receipt { .. } => {
                "starknet_subscriptionNewTransactionReceipts"@
            },
            StarknetLiveMessageView::Transaction { .. } => "starknet_subscriptionNewTransaction"@,
        }),
{
}

/// Whatever a message or a connection fails of, it is the request that failed.
pub proof fn law_failures_are_failed_requests<E>(
    head: Message<HeadNotification>,
    live: Message<LiveNotification>,
    received: Result<Message<LiveNotification>, E>,
)
    ensures
        announced_head(head) matches Err(report) ==> report.error == StarknetProviderError::Request,
        live_message(live) matches Err(report) ==> report.error == StarknetProviderError::Request,
        live_item(received) matches Some(Err(report)) ==> report.error
            == StarknetProviderError::Request,
{
}

/// A head that is announced has a hash of fixed width.
pub proof fn law_announced_hashes_have_fixed_width(message: Message<HeadNotification>)
    ensures
        announced_head(message) matches Ok(Some((_, hash))) ==> hash.len() == models::HASH_WIDTH,
{
}

/// Parameters by position say what the same parameters say by name.
pub proof fn law_positions_and_names_agree(id: Json, result: Json, field: Seq<char>)
    ensures
        Json::Array(seq![id, result]).result_number(field) == Json::Object(
            map!["subscription_id"@ => id, "result"@ => result],
        ).result_number(field),
{
}

} // verus!
