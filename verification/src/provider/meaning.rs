//! What reading and writing messages comes to, in terms of the characters, the bytes and
//! the members that they hold.

use vstd::prelude::*;

use super::digits::{self, FromHexError};
use super::json::{self, Json};
use super::models::{
    self, EmittedEventWithFinality, FieldElement, L2TransactionFinalityStatus, L2TransactionStatus,
    TransactionReceiptWithBlockInfo, TransactionWithL2Status,
};
use super::notification;
use super::subscribe::{
    self, AddressFilter, ConfirmedBlockId, LiveSubscribeRequest, StarknetLiveEventFilter,
    SubscribeEventsRequest, SubscribeNewTransactionReceiptsRequest,
    SubscribeNewTransactionsRequest, SubscribeRequest, SubscriptionTag,
};
use super::ws::{
    self, HeadCause, HeadNotification, LiveCause, LiveNotification, Message, NewHeadMessage,
    Polled, ProviderReport, StarknetLiveMessage, StarknetProviderError, StreamCause,
};

verus! {

/// A digit stands for what it says: `0` to `9` for themselves, then `a` to `f` of either
/// case; there are no others.
pub proof fn law_digits_stand_for_their_values(c: char, radix: int)
    ensures
        '0' <= c <= '9' ==> digits::digit_value(c) == Some(c as int - 48),
        'a' <= c <= 'f' ==> digits::digit_value(c) == Some(c as int - 87),
        'A' <= c <= 'F' ==> digits::digit_value(c) == Some(c as int - 55),
        digits::digit_value(c) is Some ==> '0' <= c <= '9' || 'a' <= c <= 'f' || 'A' <= c <= 'F',
        digits::is_digit(c, radix) <==> digits::digit_value(c) is Some && digits::digit_value(c)->0
            < radix,
{
}

/// One more digit behind a number makes it as many times larger as the radix says, and adds
/// its value; without digits it is zero.
pub proof fn law_numbers_grow_by_digits(text: Seq<char>, c: char, radix: int)
    ensures
        digits::number_of(Seq::empty(), radix) == 0,
        digits::number_of(text.push(c), radix) == digits::number_of(text, radix) * radix
            + digits::digit_value(c)->0,
{
    assert(text.push(c).drop_last() =~= text);
}

/// One more byte behind others makes the number 256 times larger, and adds its value;
/// without bytes it is zero.
pub proof fn law_numbers_grow_by_bytes(bytes: Seq<u8>, byte: u8)
    ensures
        digits::bytes_number(Seq::empty()) == 0,
        digits::bytes_number(bytes.push(byte)) == digits::bytes_number(bytes) * 256 + byte,
{
    assert(bytes.push(byte).drop_last() =~= bytes);
}

/// Numbers are read digit by digit: nothing and a sign alone are no numbers, one digit is
/// its value, and one more digit is read as long as it is one and the number fits. One plus
/// sign may stand before a number, and no more.
pub proof fn law_numbers_are_read_digit_by_digit(text: Seq<char>, c: char, radix: int)
    requires
        2 <= radix <= 16,
    ensures
        digits::parsed_number(Seq::empty(), radix) is None,
        digits::parsed_number(seq![c], radix) == if digits::digit_value(c) is Some
            && digits::digit_value(c)->0 < radix {
            Some(digits::digit_value(c)->0 as u64)
        } else {
            None
        },
        text.len() > 0 && text != seq!['+'] ==> digits::parsed_number(text.push(c), radix)
            == match digits::parsed_number(text, radix) {
            Some(number) => if digits::digit_value(c) is Some && digits::digit_value(c)->0 < radix
                && number * radix + digits::digit_value(c)->0 <= u64::MAX {
                Some((number * radix + digits::digit_value(c)->0) as u64)
            } else {
                None
            },
            None => None,
        },
        text.len() > 0 && text[0] != '+' ==> digits::parsed_number(seq!['+'] + text, radix)
            == digits::parsed_number(text, radix),
        text.len() > 0 && text[0] == '+' ==> digits::parsed_number(seq!['+'] + text, radix) is None,
{
    let one = seq![c];
    law_numbers_grow_by_digits(Seq::empty(), c, radix);
    assert(Seq::empty().push(c) =~= one);
    assert(one.skip(1) =~= Seq::empty());
    if digits::is_digit(c, radix) {
        assert(digits::all_digits(one, radix));
    } else if c != '+' {
        assert(!digits::is_digit(one[0], radix));
    }
    if text.len() > 0 && text != seq!['+'] {
        let before = digits::unsigned_part(text);
        let after = digits::unsigned_part(text.push(c));
        assert(text.push(c).skip(1) =~= text.skip(1).push(c));
        assert(after =~= before.push(c));
        if before.len() == 0 {
            assert(text =~= seq!['+']);
        }
        law_numbers_grow_by_digits(before, c, radix);
        if digits::all_digits(after, radix) {
            assert forall|i: int| 0 <= i < before.len() implies digits::is_digit(
                #[trigger] before[i],
                radix,
            ) by {
                assert(after[i] == before[i]);
            }
            assert(digits::is_digit(after[before.len() as int], radix));
            digits::lemma_number_grows(after, before.len() as int, radix);
            assert(after.take(before.len() as int) =~= before);
        } else if digits::all_digits(before, radix) && digits::is_digit(c, radix) {
            assert forall|i: int| 0 <= i < after.len() implies digits::is_digit(
                #[trigger] after[i],
                radix,
            ) by {
                if i < before.len() {
                    assert(after[i] == before[i]);
                }
            }
        }
    }
    if text.len() > 0 {
        let signed = seq!['+'] + text;
        assert(signed.skip(1) =~= text);
        if text[0] == '+' {
            assert(!digits::is_digit(text[0], radix));
        }
    }
}

/// The prefix `0x` of a field element does not count, however often it stands there.
pub proof fn law_prefixes_do_not_count(text: Seq<char>)
    ensures
        digits::felt_bytes(seq!['0', 'x'] + text) == digits::felt_bytes(text),
        digits::felt_error(seq!['0', 'x'] + text) == digits::felt_error(text),
{
    let prefixed = seq!['0', 'x'] + text;
    assert(prefixed.skip(2) =~= text);
    assert(digits::without_prefixes(prefixed) == digits::without_prefixes(text));
}

/// A field element is read from hexadecimal digits if there is nothing else: two digits make
/// a byte, counted from the last one, and a digit that is left over makes one alone.
pub proof fn law_bytes_are_read_from_their_digits(text: Seq<char>, j: int)
    requires
        !(text.len() >= 2 && text[0] == '0' && text[1] == 'x'),
    ensures
        digits::felt_bytes(text) is Some <==> forall|i: int|
            0 <= i < text.len() ==> digits::digit_value(#[trigger] text[i]) is Some,
        digits::felt_bytes(text) matches Some(bytes) ==> {
            &&& bytes.len() == (text.len() + 1) / 2
            &&& 0 <= j < bytes.len() ==> {
                let low = text.len() - 1 - 2 * (bytes.len() - 1 - j);
                bytes[j] == 16 * (if low >= 1 {
                    digits::digit_value(text[low - 1])->0
                } else {
                    0
                }) + digits::digit_value(text[low])->0
            }
        },
{
    assert(digits::without_prefixes(text) == text);
    if digits::all_digits(text, 16) {
        assert forall|i: int| 0 <= i < text.len() implies digits::digit_value(
            #[trigger] text[i],
        ) is Some by {
            assert(digits::is_digit(text[i], 16));
        }
        digits::lemma_digits_are_bytes(text);
        let even = digits::even_digits(text);
        let bytes = digits::hex_bytes(even);
        if 0 <= j < bytes.len() {
            let extra = even.len() - text.len();
            let low = text.len() - 1 - 2 * (bytes.len() - 1 - j);
            assert(2 * j + 1 == low + extra);
            assert(even[2 * j + 1] == text[low]);
            assert(digits::is_digit(text[low], 16));
            if low >= 1 {
                assert(even[2 * j] == text[low - 1]);
                assert(digits::is_digit(text[low - 1], 16));
            } else {
                assert(even[2 * j] == '0');
            }
        }
    } else {
        let i = choose|i: int| 0 <= i < text.len() && !digits::is_digit(#[trigger] text[i], 16);
        assert(digits::digit_value(text[i]) is None);
    }
}

/// What is reported of text that is no field element is the first character that is no
/// digit, and its place, counted with the zero that goes before an odd number of digits.
pub proof fn law_the_first_wrong_character_is_reported(text: Seq<char>, at: int, index: usize)
    requires
        !(text.len() >= 2 && text[0] == '0' && text[1] == 'x'),
        0 <= at < text.len(),
        forall|i: int| 0 <= i < text.len() ==> '\0' <= #[trigger] text[i] <= '\u{7f}',
        forall|i: int| 0 <= i < at ==> digits::digit_value(#[trigger] text[i]) is Some,
        digits::digit_value(text[at]) is None,
        index == at + text.len() % 2,
    ensures
        digits::felt_bytes(text) is None,
        digits::felt_error(text) == (FromHexError::InvalidHexCharacter { c: text[at], index }),
{
    assert(digits::without_prefixes(text) == text);
    assert(!digits::is_digit(text[at], 16));
    assert(vstd::utf8::is_ascii_chars(text));
    vstd::utf8::is_ascii_chars_encode_utf8(text);
    let even = digits::even_digits(text);
    let extra = text.len() % 2;
    assert(even.len() == text.len() + extra);
    assert forall|i: int| 0 <= i < even.len() implies #[trigger] even[i] == if i < extra {
        '0'
    } else {
        text[i - extra]
    } by {}
    assert(vstd::utf8::is_ascii_chars(even));
    vstd::utf8::is_ascii_chars_encode_utf8(even);
    let bytes = vstd::utf8::encode_utf8(even);
    let error = FromHexError::InvalidHexCharacter { c: text[at], index };
    assert(even[index as int] == text[at]);
    assert forall|i: int| 0 <= i < bytes.len() implies #[trigger] bytes[i] as char == even[i] by {
        assert(even[i] as u8 == bytes[i]);
    }
    assert(bytes[index as int] as char == text[at]);
    assert(!digits::is_hex_byte(bytes[index as int]));
    assert forall|i: int| 0 <= i < index implies digits::is_hex_byte(#[trigger] bytes[i]) by {
        assert(bytes[i] as char == even[i]);
        if i >= extra {
            assert(digits::digit_value(text[i - extra]) is Some);
        }
    }
    digits::lemma_hex_error_is_unique(bytes, error);
}

/// What is reported of bytes that are no hexadecimal number is that their number is odd, or
/// the first of them that is no digit, and its place.
pub proof fn law_the_first_wrong_byte_is_reported(bytes: Seq<u8>, error: FromHexError, i: int)
    requires
        digits::is_hex_error(bytes, error),
    ensures
        error is OddLength <==> bytes.len() % 2 == 1,
        bytes.len() % 2 == 0 ==> (error matches FromHexError::InvalidHexCharacter { c, index } && {
            &&& index < bytes.len()
            &&& c as int == bytes[index as int]
            &&& !(48 <= bytes[index as int] <= 57 || 97 <= bytes[index as int] <= 102 || 65
                <= bytes[index as int] <= 70)
            &&& 0 <= i < index ==> 48 <= bytes[i] <= 57 || 97 <= bytes[i] <= 102 || 65 <= bytes[i]
                <= 70
        }),
{
    if let FromHexError::InvalidHexCharacter { c: _, index } = error {
        assert(!digits::is_hex_byte(bytes[index as int]));
        if 0 <= i < index {
            assert(digits::is_hex_byte(bytes[i]));
        }
    }
}

/// What is seen of a hash is its bytes.
pub proof fn law_hashes_are_seen_whole(hash: models::Hash)
    ensures
        hash@ == hash.0@,
{
}

/// A hash of fixed width holds the last bytes of what it is made of, and zeros before them.
pub proof fn law_hashes_hold_the_last_bytes(bytes: Seq<u8>, i: int)
    ensures
        models::fixed_width(bytes).len() == 32,
        0 <= i < 32 ==> models::fixed_width(bytes)[i] == if bytes.len() - 32 + i >= 0 {
            bytes[bytes.len() - 32 + i]
        } else {
            0
        },
{
}

/// A notification of a head whose hash is written in hexadecimal digits, with a prefix or
/// without, announces that head: its number, and a hash of which each byte is two of the
/// digits, counted from the last one, with zeros where there are none. As far as the digits
/// fit, the hash is the number that they write.
pub proof fn law_heads_are_announced(
    notification: HeadNotification,
    head: Result<Option<NewHeadMessage>, ProviderReport<HeadCause>>,
    text: Seq<char>,
    i: int,
)
    requires
        ws::head_outcome(head) == ws::announced_head(Message::Text(Ok(notification))),
        notification.params is Some,
        notification.params->0.result.block_hash@ == text
            || notification.params->0.result.block_hash@ == seq!['0', 'x'] + text,
        !(text.len() >= 2 && text[0] == '0' && text[1] == 'x'),
        forall|i: int| 0 <= i < text.len() ==> digits::digit_value(#[trigger] text[i]) is Some,
    ensures
        head matches Ok(Some(head)) && {
            let hash = head.block_hash.0@;
            &&& head.block_number == notification.params->0.result.block_number
            &&& hash.len() == 32
            &&& 0 <= i < 32 ==> {
                let high = text.len() - 64 + 2 * i;
                hash[i] == 16 * (if high >= 0 {
                    digits::digit_value(text[high])->0
                } else {
                    0
                }) + (if high + 1 >= 0 {
                    digits::digit_value(text[high + 1])->0
                } else {
                    0
                })
            }
            &&& text.len() <= 64 ==> digits::bytes_number(hash) == digits::number_of(text, 16)
        },
{
    let written = notification.params->0.result.block_hash@;
    law_prefixes_do_not_count(text);
    law_bytes_are_read_from_their_digits(text, 0);
    let bytes = digits::felt_bytes(text)->0;
    law_hashes_hold_the_last_bytes(bytes, i);
    if 0 <= i < 32 && bytes.len() - 32 + i >= 0 {
        law_bytes_are_read_from_their_digits(text, bytes.len() - 32 + i);
    }
    assert(digits::without_prefixes(text) == text);
    if text.len() <= 64 {
        assert(digits::all_digits(text, 16)) by {
            assert forall|i: int| 0 <= i < text.len() implies digits::is_digit(
                #[trigger] text[i],
                16,
            ) by {
                assert(digits::digit_value(text[i]) is Some);
            }
        }
        digits::law_hash_is_the_written_number(text);
    }
}

/// A notification of a head whose hash holds anything but digits is an error that tells the
/// text; text that is no notification is an error, and whatever else comes is passed over.
pub proof fn law_other_messages_announce_no_head(
    message: Message<HeadNotification>,
    head: Result<Option<NewHeadMessage>, ProviderReport<HeadCause>>,
    text: Seq<char>,
    at: int,
)
    requires
        ws::head_outcome(head) == ws::announced_head(message),
        !(text.len() >= 2 && text[0] == '0' && text[1] == 'x'),
        0 <= at < text.len(),
        digits::digit_value(text[at]) is None,
    ensures
        match message {
            Message::Other => head matches Ok(None),
            Message::Text(Err(error)) => head matches Err(report) && report.error
                == StarknetProviderError::Request && report.cause == HeadCause::Text(error),
            Message::Text(Ok(notification)) => match notification.params {
                None => head matches Ok(None),
                Some(params) => params.result.block_hash@ == text || params.result.block_hash@
                    == seq!['0', 'x'] + text ==> (head matches Err(report) && report.error
                    == StarknetProviderError::Request && report.cause == (HeadCause::BlockHash {
                    text: params.result.block_hash,
                    error: digits::felt_error(text),
                })),
            },
        },
{
    law_prefixes_do_not_count(text);
    law_bytes_are_read_from_their_digits(text, 0);
}

/// The number that a JSON value is or writes: a whole number that is not negative is
/// itself, text is read in hexadecimal behind `0x` and in decimal without it, and nothing
/// else is a number.
pub proof fn law_numbers_of_json_values(value: Json, text: Seq<char>)
    ensures
        match value {
            Json::Unsigned(number) => value.number() == Some(number),
            Json::Text(_) => true,
            _ => value.number() is None,
        },
        Json::Text(seq!['0', 'x'] + text).number() == digits::parsed_number(text, 16),
        !(text.len() >= 2 && text[0] == '0' && text[1] == 'x') ==> Json::Text(text).number()
            == digits::parsed_number(text, 10),
{
    assert((seq!['0', 'x'] + text).skip(2) =~= text);
}

/// The numbers of a notification's result are members of its parameter `result`, which
/// stands second where parameters come by position.
pub proof fn law_numbers_of_results(value: Json, field: Seq<char>)
    ensures
        value.result_number(field) == {
            let result = match value {
                Json::Object(members) => if members.contains_key("result"@) {
                    members["result"@]
                } else {
                    Json::Null
                },
                Json::Array(items) => if items.len() > 1 {
                    items[1]
                } else {
                    Json::Null
                },
                _ => Json::Null,
            };
            match result {
                Json::Object(fields) => if fields.contains_key(field) {
                    fields[field].number()
                } else {
                    None
                },
                _ => None,
            }
        },
{
}

/// Nothing that decodes is passed over: a notification of an event, a receipt or a
/// transaction is a message that carries exactly what its parameters decode to, with the
/// position that its result tells; where they do not decode, it is an error that tells why.
/// A notification of anything else is passed over.
pub proof fn law_notifications_are_passed_on(
    notification: LiveNotification,
    parsed: Result<Option<StarknetLiveMessage>, ProviderReport<LiveCause>>,
)
    requires
        ws::outcome(parsed) == ws::live_message(Message::Text(Ok(notification))),
        notification.error is None,
        notification.method is Some,
        notification.params is Some,
    ensures
        ({
            let method = notification.method->0@;
            let params = json::json_view(notification.params->0);
            &&& method == "starknet_subscriptionEvents"@
                ==> match notification::decoded_event(params) {
                Ok(event) => parsed matches Ok(Some(StarknetLiveMessage::Event(message)))
                    && message.event@ == event,
                Err(error) => parsed matches Err(report) && report.error
                    == StarknetProviderError::Request && report.cause == LiveCause::Event(error),
            }
            &&& method == "starknet_subscriptionNewTransactionReceipts"@
                ==> match notification::decoded_receipt(params) {
                Ok(receipt) => parsed matches Ok(Some(StarknetLiveMessage::Receipt(message)))
                    && message.receipt == receipt && message.transaction_index
                    == params.result_number("transaction_index"@),
                Err(error) => parsed matches Err(report) && report.error
                    == StarknetProviderError::Request && report.cause == LiveCause::Receipt(error),
            }
            &&& method == "starknet_subscriptionNewTransaction"@
                ==> match notification::decoded_transaction(params) {
                Ok(transaction) => parsed matches Ok(
                    Some(StarknetLiveMessage::Transaction(message)),
                ) && message.transaction == transaction && message.block_number
                    == params.result_number("block_number"@) && message.transaction_index
                    == params.result_number("transaction_index"@),
                Err(error) => parsed matches Err(report) && report.error
                    == StarknetProviderError::Request && report.cause == LiveCause::Transaction(
                    error,
                ),
            }
            &&& method != "starknet_subscriptionEvents"@ && method
                != "starknet_subscriptionNewTransactionReceipts"@ && method
                != "starknet_subscriptionNewTransaction"@ ==> parsed matches Ok(None)
        }),
{
    reveal_strlit("starknet_subscriptionEvents");
    reveal_strlit("starknet_subscriptionNewTransactionReceipts");
    reveal_strlit("starknet_subscriptionNewTransaction");
    assert("starknet_subscriptionEvents"@.len() == 27);
    assert("starknet_subscriptionNewTransactionReceipts"@.len() == 43);
    assert("starknet_subscriptionNewTransaction"@.len() == 35);
}

/// Of messages that are no notification, one with an error that the node reports is an
/// error that tells it, text that is no message is an error that tells why, and whatever
/// else comes is passed over.
pub proof fn law_other_messages_carry_no_live_data(
    message: Message<LiveNotification>,
    parsed: Result<Option<StarknetLiveMessage>, ProviderReport<LiveCause>>,
)
    requires
        ws::outcome(parsed) == ws::live_message(message),
    ensures
        match message {
            Message::Other => parsed matches Ok(None),
            Message::Text(Err(error)) => parsed matches Err(report) && report.error
                == StarknetProviderError::Request && report.cause == LiveCause::Text(error),
            Message::Text(Ok(notification)) => {
                &&& notification.error is Some ==> (parsed matches Err(report) && report.error
                    == StarknetProviderError::Request && report.cause == LiveCause::Reported(
                    notification.error->0,
                ))
                &&& notification.error is None && (notification.method is None
                    || notification.params is None) ==> parsed matches Ok(None)
            },
        },
{
}

/// What a notification decodes to becomes the message, whole and with the position that
/// comes with it; where it does not decode, the error tells why.
pub proof fn law_what_is_decoded_is_passed_on(
    event: Result<EmittedEventWithFinality, serde_json::Error>,
    receipt: Result<TransactionReceiptWithBlockInfo, serde_json::Error>,
    transaction: Result<TransactionWithL2Status, serde_json::Error>,
    block_number: Option<u64>,
    transaction_index: Option<u64>,
    parsed: Result<Option<StarknetLiveMessage>, ProviderReport<LiveCause>>,
)
    ensures
        ws::outcome(parsed) == ws::event_message(
            match event {
                Ok(event) => Ok(event@),
                Err(error) => Err(error),
            },
        ) ==> match event {
            Ok(event) => parsed matches Ok(Some(StarknetLiveMessage::Event(message)))
                && message.event@ == event@,
            Err(error) => parsed matches Err(report) && report.error
                == StarknetProviderError::Request && report.cause == LiveCause::Event(error),
        },
        ws::outcome(parsed) == ws::receipt_message(receipt, transaction_index) ==> match receipt {
            Ok(receipt) => parsed matches Ok(Some(StarknetLiveMessage::Receipt(message)))
                && message.receipt == receipt && message.transaction_index == transaction_index,
            Err(error) => parsed matches Err(report) && report.error
                == StarknetProviderError::Request && report.cause == LiveCause::Receipt(error),
        },
        ws::outcome(parsed) == ws::transaction_message(transaction, block_number, transaction_index)
            ==> match transaction {
            Ok(transaction) => parsed matches Ok(Some(StarknetLiveMessage::Transaction(message)))
                && message.transaction == transaction && message.block_number == block_number
                && message.transaction_index == transaction_index,
            Err(error) => parsed matches Err(report) && report.error
                == StarknetProviderError::Request && report.cause == LiveCause::Transaction(error),
        },
{
}

/// What is seen of an event is all of it.
pub proof fn law_events_are_seen_whole(a: EmittedEventWithFinality, b: EmittedEventWithFinality)
    requires
        a@ == b@,
    ensures
        a.emitted_event.from_address == b.emitted_event.from_address,
        a.emitted_event.keys@ == b.emitted_event.keys@,
        a.emitted_event.data@ == b.emitted_event.data@,
        a.emitted_event.block_hash == b.emitted_event.block_hash,
        a.emitted_event.block_number == b.emitted_event.block_number,
        a.emitted_event.transaction_hash == b.emitted_event.transaction_hash,
        a.emitted_event.transaction_index == b.emitted_event.transaction_index,
        a.emitted_event.event_index == b.emitted_event.event_index,
        a.finality_status == b.finality_status,
{
    assert(a@.emitted_event == b@.emitted_event);
    assert(a.emitted_event@ == b.emitted_event@);
}

/// What is seen of a message is all of it.
pub proof fn law_messages_are_seen_whole(a: StarknetLiveMessage, b: StarknetLiveMessage)
    requires
        a@ == b@,
    ensures
        match (a, b) {
            (StarknetLiveMessage::Transaction(a), StarknetLiveMessage::Transaction(b)) => a == b,
            (StarknetLiveMessage::Receipt(a), StarknetLiveMessage::Receipt(b)) => a == b,
            (StarknetLiveMessage::Event(a), StarknetLiveMessage::Event(b)) => a.event@ == b.event@,
            _ => false,
        },
{
}

/// A stream of live data passes on what the messages say, errors too; a connection that
/// fails is an error that tells why, and a message that says nothing makes no item.
pub proof fn law_live_streams_pass_on_what_messages_say<E>(
    received: Result<Message<LiveNotification>, E>,
    item: Option<Result<StarknetLiveMessage, ProviderReport<StreamCause<E, LiveCause>>>>,
    parsed: Result<Option<StarknetLiveMessage>, ProviderReport<LiveCause>>,
)
    requires
        ws::item_content(item) == ws::live_item(received),
        received matches Ok(message) ==> ws::outcome(parsed) == ws::live_message(message),
    ensures
        match received {
            Err(error) => item matches Some(Err(report)) && report.error
                == StarknetProviderError::Request && report.cause == StreamCause::<
                E,
                LiveCause,
            >::Connection(error),
            Ok(_) => match parsed {
                Ok(None) => item is None,
                Ok(Some(said)) => item matches Some(Ok(found)) && found@ == said@,
                Err(failure) => item matches Some(Err(report)) && report.error == failure.error
                    && report.cause == StreamCause::<E, LiveCause>::Message(failure.cause),
            },
        },
{
}

/// The items of a stream follow what came, one behind the other.
pub proof fn law_live_streams_follow_what_came<E>(
    received: Seq<Result<Message<LiveNotification>, E>>,
    next: Result<Message<LiveNotification>, E>,
)
    ensures
        ws::live_items(Seq::<Result<Message<LiveNotification>, E>>::empty()).len() == 0,
        ws::live_items(received.push(next)) == match ws::live_item(next) {
            Some(item) => ws::live_items(received).push(item),
            None => ws::live_items(received),
        },
{
    assert(received.push(next).drop_last() =~= received);
}

/// A stream of new heads waits, ends and fails with its connection, and passes on what the
/// messages announce, errors too; a message that announces no head leaves it waiting.
pub proof fn law_head_streams_pass_on_what_messages_announce<E>(
    received: Polled<Option<Result<Message<HeadNotification>, E>>>,
    item: Polled<Option<Result<NewHeadMessage, ProviderReport<StreamCause<E, HeadCause>>>>>,
    head: Result<Option<NewHeadMessage>, ProviderReport<HeadCause>>,
)
    requires
        ws::head_content(item) == ws::next_head(received),
        received matches Polled::Ready(Some(Ok(message))) ==> ws::head_outcome(head)
            == ws::announced_head(message),
    ensures
        match received {
            Polled::Pending => item is Pending,
            Polled::Ready(None) => item matches Polled::Ready(None),
            Polled::Ready(Some(Err(error))) => item matches Polled::Ready(Some(Err(report)))
                && report.error == StarknetProviderError::Request && report.cause == StreamCause::<
                E,
                HeadCause,
            >::Connection(error),
            Polled::Ready(Some(Ok(_))) => match head {
                Ok(None) => item is Pending,
                Ok(Some(said)) => item matches Polled::Ready(Some(Ok(found)))
                    && found.block_number == said.block_number && found.block_hash.0@
                    == said.block_hash.0@,
                Err(failure) => item matches Polled::Ready(Some(Err(report))) && report.error
                    == failure.error && report.cause == StreamCause::<E, HeadCause>::Message(
                    failure.cause,
                ),
            },
        },
{
}

/// A field element is written as `0x` and lower case hexadecimal digits without leading
/// zeros, which are the number of its bytes modulo the prime of the field.
pub proof fn law_field_elements_are_written_as_numbers(felt: FieldElement, i: int)
    ensures
        ({
            let text = digits::felt_text(felt);
            &&& text.len() >= 3
            &&& text[0] == '0'
            &&& text[1] == 'x'
            &&& 2 <= i < text.len() ==> '0' <= text[i] <= '9' || 'a' <= text[i] <= 'f'
            &&& text.len() > 3 ==> text[2] != '0'
            &&& digits::number_of(text.skip(2), 16) == digits::bytes_number(felt.bytes@)
                % 0x0800000000000011000000000000000000000000000000000000000000000001int
        }),
{
    reveal_strlit("0x");
    let number = digits::bytes_number(felt.bytes@) % digits::field_prime();
    digits::lemma_hex_digits_number(number);
    lemma_hex_digits_are_plain(number);
    let text = digits::felt_text(felt);
    assert("0x"@.len() == 2);
    assert(text.skip(2) =~= digits::hex_digits(number));
    if 2 <= i < text.len() {
        assert(text[i] == digits::hex_digits(number)[i - 2]);
    }
    assert(text[2] == digits::hex_digits(number)[0]);
}

/// Digits that are written are of lower case, and do not begin with a zero but for zero
/// itself.
proof fn lemma_hex_digits_are_plain(number: int)
    requires
        0 <= number,
    ensures
        digits::hex_digits(number).len() > 0,
        forall|i: int|
            0 <= i < digits::hex_digits(number).len() ==> '0' <= (
            #[trigger] digits::hex_digits(number)[i]) <= '9' || 'a' <= digits::hex_digits(number)[i]
                <= 'f',
        number > 0 ==> digits::hex_digits(number)[0] != '0',
        number < 16 ==> digits::hex_digits(number).len() == 1,
    decreases number,
{
    let value = number % 16;
    let c = digits::hex_digit(value);
    assert('0' <= c <= '9' || 'a' <= c <= 'f');
    if number >= 16 {
        lemma_hex_digits_are_plain(number / 16);
        assert forall|i: int| 0 <= i < digits::hex_digits(number).len() implies '0' <= (
        #[trigger] digits::hex_digits(number)[i]) <= '9' || 'a' <= digits::hex_digits(number)[i]
            <= 'f' by {
            if i < digits::hex_digits(number / 16).len() {
                assert(digits::hex_digits(number)[i] == digits::hex_digits(number / 16)[i]);
            }
        }
        assert(digits::hex_digits(number)[0] == digits::hex_digits(number / 16)[0]);
    }
}

/// A block is written by its hash, by its number, or as the tag that it goes by.
pub proof fn law_blocks_are_written_by_what_they_go_by(block_id: ConfirmedBlockId)
    ensures
        match block_id {
            ConfirmedBlockId::Hash(hash) => block_id.to_json() matches Json::Object(members)
                && members.dom() == set!["block_hash"@] && members["block_hash"@] == Json::Text(
                digits::felt_text(hash),
            ),
            ConfirmedBlockId::Number(number) => block_id.to_json() matches Json::Object(members)
                && members.dom() == set!["block_number"@] && members["block_number"@]
                == Json::Unsigned(number),
            ConfirmedBlockId::Latest => block_id.to_json() == Json::Text("latest"@),
            ConfirmedBlockId::L1Accepted => block_id.to_json() == Json::Text("l1_accepted"@),
        },
{
    if let ConfirmedBlockId::Hash(_) = block_id {
        assert(block_id.to_json()->Object_0.dom() =~= set!["block_hash"@]);
    }
    if let ConfirmedBlockId::Number(_) = block_id {
        assert(block_id.to_json()->Object_0.dom() =~= set!["block_number"@]);
    }
}

/// A request for new heads calls the method for it, with the block that it starts from.
pub proof fn law_head_requests_are_calls(request: SubscribeRequest)
    ensures
        request.payload() matches Json::Object(members) && {
            &&& members.dom() == set!["jsonrpc"@, "id"@, "method"@, "params"@]
            &&& members["jsonrpc"@] == Json::Text("2.0"@)
            &&& members["id"@] == Json::Unsigned(0)
            &&& members["method"@] == Json::Text("starknet_subscribeNewHeads"@)
            &&& members["params"@] matches Json::Array(items) && items.len() == 1 && items[0]
                == request.block_id.to_json()
        },
{
    lemma_call_members();
    assert(request.payload()->Object_0.dom() =~= set!["jsonrpc"@, "id"@, "method"@, "params"@]);
}

proof fn lemma_call_members()
    ensures
        "jsonrpc"@ != "id"@,
        "jsonrpc"@ != "method"@,
        "jsonrpc"@ != "params"@,
        "id"@ != "method"@,
        "id"@ != "params"@,
        "method"@ != "params"@,
{
    reveal_strlit("jsonrpc");
    reveal_strlit("id");
    reveal_strlit("method");
    reveal_strlit("params");
    assert("jsonrpc"@.len() == 7 && "id"@.len() == 2);
    assert("method"@.len() == 6 && "params"@.len() == 6);
    assert("method"@[0] == 'm' && "params"@[0] == 'p');
}

/// A call of a method holds its version, its id, its method and its parameters, and nothing
/// else.
pub proof fn law_calls_hold_what_they_are_made_of(id: u64, method: Seq<char>, params: Json)
    ensures
        subscribe::payload_json(id, method, params) matches Json::Object(members) && {
            &&& members.dom() == set!["jsonrpc"@, "id"@, "method"@, "params"@]
            &&& members["jsonrpc"@] == Json::Text("2.0"@)
            &&& members["id"@] == Json::Unsigned(id)
            &&& members["method"@] == Json::Text(method)
            &&& members["params"@] == params
        },
{
    lemma_call_members();
    assert(subscribe::payload_json(id, method, params)->Object_0.dom()
        =~= set!["jsonrpc"@, "id"@, "method"@, "params"@]);
}

/// A live request calls the method for what it asks for, under an id of its own, with what
/// it asks for as parameters.
pub proof fn law_live_requests_are_calls(request: LiveSubscribeRequest)
    ensures
        request@.payload() matches Json::Object(members) && {
            &&& members.dom() == set!["jsonrpc"@, "id"@, "method"@, "params"@]
            &&& members["jsonrpc"@] == Json::Text("2.0"@)
            &&& match request {
                LiveSubscribeRequest::Events(asked) => {
                    &&& members["id"@] == Json::Unsigned(1)
                    &&& members["method"@] == Json::Text("starknet_subscribeEvents"@)
                    &&& members["params"@] == asked@.to_json()
                },
                LiveSubscribeRequest::NewTransactionReceipts(asked) => {
                    &&& members["id"@] == Json::Unsigned(2)
                    &&& members["method"@] == Json::Text(
                        "starknet_subscribeNewTransactionReceipts"@,
                    )
                    &&& members["params"@] == asked@.to_json()
                },
                LiveSubscribeRequest::NewTransactions(asked) => {
                    &&& members["id"@] == Json::Unsigned(3)
                    &&& members["method"@] == Json::Text("starknet_subscribeNewTransactions"@)
                    &&& members["params"@] == asked@.to_json()
                },
            }
        },
{
    lemma_call_members();
    assert(request@.payload()->Object_0.dom() =~= set!["jsonrpc"@, "id"@, "method"@, "params"@]);
}

/// A request for events writes each part that it has, and nothing else: addresses and keys
/// one by one, in their order.
pub proof fn law_event_requests_write_what_they_ask_for(
    request: SubscribeEventsRequest,
    name: Seq<char>,
    i: int,
    j: int,
)
    ensures
        request@.to_json() matches Json::Object(members) && {
            &&& members.contains_key(name) ==> name == "from_address"@ || name == "keys"@ || name
                == "block_id"@ || name == "finality_status"@
            &&& members.contains_key("from_address"@) <==> request.from_address is Some
            &&& match request.from_address {
                Some(AddressFilter::Single(address)) => members["from_address"@] == Json::Text(
                    digits::felt_text(address),
                ),
                Some(AddressFilter::Multiple(addresses)) => members["from_address"@] matches
                    Json::Array(items) && items.len() == addresses@.len() && (0 <= i < items.len()
                    ==> items[i] == Json::Text(digits::felt_text(addresses@[i]))),
                None => true,
            }
            &&& members.contains_key("keys"@) <==> request.keys is Some
            &&& request.keys is Some ==> (members["keys"@] matches Json::Array(items)
                && items.len() == request.keys->0@.len() && (0 <= i < items.len() ==> (
            items[i] matches Json::Array(any) && any.len() == request.keys->0@[i]@.len() && (0 <= j
                < any.len() ==> any[j] == Json::Text(
                digits::felt_text(request.keys->0@[i]@[j]),
            )))))
            &&& members.contains_key("block_id"@) <==> request.block_id is Some
            &&& request.block_id is Some ==> members["block_id"@] == request.block_id->0.to_json()
            &&& members.contains_key("finality_status"@) <==> request.finality_status is Some
            &&& request.finality_status == Some(L2TransactionFinalityStatus::PreConfirmed)
                ==> members["finality_status"@] == Json::Text("PRE_CONFIRMED"@)
            &&& request.finality_status == Some(L2TransactionFinalityStatus::AcceptedOnL2)
                ==> members["finality_status"@] == Json::Text("ACCEPTED_ON_L2"@)
        },
{
    reveal_strlit("from_address");
    reveal_strlit("keys");
    reveal_strlit("block_id");
    reveal_strlit("finality_status");
    assert("from_address"@.len() == 12 && "keys"@.len() == 4 && "block_id"@.len() == 8
        && "finality_status"@.len() == 15);
}

/// A request for receipts writes each part that it has, and nothing else.
pub proof fn law_receipt_requests_write_what_they_ask_for(
    request: SubscribeNewTransactionReceiptsRequest,
    name: Seq<char>,
    i: int,
)
    ensures
        request@.to_json() matches Json::Object(members) && {
            &&& members.contains_key(name) ==> name == "finality_status"@ || name
                == "sender_address"@
            &&& members.contains_key("finality_status"@) <==> request.finality_status is Some
            &&& request.finality_status is Some ==> (members["finality_status"@] matches Json::Array(
                items,
            ) && items.len() == request.finality_status->0@.len() && (0 <= i < items.len()
                ==> items[i] == Json::Text(
                match request.finality_status->0@[i] {
                    L2TransactionFinalityStatus::PreConfirmed => "PRE_CONFIRMED"@,
                    L2TransactionFinalityStatus::AcceptedOnL2 => "ACCEPTED_ON_L2"@,
                },
            )))
            &&& members.contains_key("sender_address"@) <==> request.sender_address is Some
            &&& request.sender_address is Some ==> (members["sender_address"@] matches Json::Array(
                items,
            ) && items.len() == request.sender_address->0@.len() && (0 <= i < items.len()
                ==> items[i] == Json::Text(digits::felt_text(request.sender_address->0@[i]))))
        },
{
    reveal_strlit("finality_status");
    reveal_strlit("sender_address");
    assert("finality_status"@.len() == 15 && "sender_address"@.len() == 14);
}

/// A request for transactions writes each part that it has, and nothing else.
pub proof fn law_transaction_requests_write_what_they_ask_for(
    request: SubscribeNewTransactionsRequest,
    name: Seq<char>,
    i: int,
)
    ensures
        request@.to_json() matches Json::Object(members) && {
            &&& members.contains_key(name) ==> name == "finality_status"@ || name
                == "sender_address"@ || name == "tags"@
            &&& members.contains_key("finality_status"@) <==> request.finality_status is Some
            &&& request.finality_status is Some ==> (members["finality_status"@] matches Json::Array(
                items,
            ) && items.len() == request.finality_status->0@.len() && (0 <= i < items.len()
                ==> items[i] == Json::Text(
                match request.finality_status->0@[i] {
                    L2TransactionStatus::Received => "RECEIVED"@,
                    L2TransactionStatus::Candidate => "CANDIDATE"@,
                    L2TransactionStatus::PreConfirmed => "PRE_CONFIRMED"@,
                    L2TransactionStatus::AcceptedOnL2 => "ACCEPTED_ON_L2"@,
                },
            )))
            &&& members.contains_key("sender_address"@) <==> request.sender_address is Some
            &&& request.sender_address is Some ==> (members["sender_address"@] matches Json::Array(
                items,
            ) && items.len() == request.sender_address->0@.len() && (0 <= i < items.len()
                ==> items[i] == Json::Text(digits::felt_text(request.sender_address->0@[i]))))
            &&& members.contains_key("tags"@) <==> request.tags is Some
            &&& request.tags is Some ==> (members["tags"@] matches Json::Array(items)
                && items.len() == request.tags->0@.len() && (0 <= i < items.len() ==> items[i]
                == Json::Text(
                match request.tags->0@[i] {
                    SubscriptionTag::IncludeProofFacts => "INCLUDE_PROOF_FACTS"@,
                },
            )))
        },
{
    reveal_strlit("finality_status");
    reveal_strlit("sender_address");
    reveal_strlit("tags");
    assert("finality_status"@.len() == 15 && "sender_address"@.len() == 14 && "tags"@.len() == 4);
}

/// A live subscription asks for pre-confirmed receipts and transactions, over one connection
/// and in this order. Where there is an event filter, it asks for the pre-confirmed events
/// that pass it first, over another one: those of the filter's address and with its keys,
/// from no block in particular.
pub proof fn law_live_subscriptions_ask_for_all_kinds(
    filter: Option<StarknetLiveEventFilter>,
    groups: Seq<Vec<LiveSubscribeRequest>>,
    i: int,
)
    requires
        subscribe::grouped(groups) == subscribe::live_requests(
            match filter {
                Some(filter) => Some(filter@),
                None => None,
            },
        ),
    ensures
        groups.len() == if filter is Some {
            2int
        } else {
            1
        },
        filter is Some ==> {
            let found = filter->0;
            &&& groups[0]@.len() == 1
            &&& groups[0]@[0] matches LiveSubscribeRequest::Events(asked) && {
                &&& match asked.from_address {
                    Some(AddressFilter::Single(address)) => found.from_address == Some(address),
                    Some(AddressFilter::Multiple(_)) => false,
                    None => found.from_address is None,
                }
                &&& asked.keys is Some <==> found.keys is Some
                &&& found.keys is Some ==> asked.keys->0@.len() == found.keys->0@.len() && (0 <= i
                    < found.keys->0@.len() ==> asked.keys->0@[i]@ == found.keys->0@[i]@)
                &&& asked.block_id is None
                &&& asked.finality_status == Some(L2TransactionFinalityStatus::PreConfirmed)
            }
        },
        groups.last()@.len() == 2,
        groups.last()@[0] matches LiveSubscribeRequest::NewTransactionReceipts(asked) && {
            &&& asked.finality_status is Some
            &&& asked.finality_status->0@ == seq![L2TransactionFinalityStatus::PreConfirmed]
            &&& asked.sender_address is None
        },
        groups.last()@[1] matches LiveSubscribeRequest::NewTransactions(asked) && {
            &&& asked.finality_status is Some
            &&& asked.finality_status->0@ == seq![L2TransactionStatus::PreConfirmed]
            &&& asked.sender_address is None
            &&& asked.tags is None
        },
{
    let views = subscribe::grouped(groups);
    let last = groups.len() - 1;
    assert(views.len() == groups.len());
    assert(views[last] == groups[last]@.map_values(|request: LiveSubscribeRequest| request@));
    assert(views[last].len() == 2);
    assert(views[last][0] == groups[last]@[0]@);
    assert(views[last][1] == groups[last]@[1]@);
    assert(views[last][0] == subscribe::receipts_request());
    assert(views[last][1] == subscribe::transactions_request());
    if let Some(found) = filter {
        assert(views[0] == groups[0]@.map_values(|request: LiveSubscribeRequest| request@));
        assert(views[0].len() == 1);
        assert(views[0][0] == groups[0]@[0]@);
        assert(views[0][0] == subscribe::events_request(found@));
        let asked = groups[0]@[0]->Events_0;
        assert(asked@.keys == subscribe::optional_keys(asked.keys));
        assert(subscribe::optional_keys(asked.keys) == subscribe::optional_keys(found.keys));
        assert(asked.keys is Some <==> found.keys is Some);
        if found.keys is Some {
            let theirs = subscribe::optional_keys(found.keys)->0;
            let ours = subscribe::optional_keys(asked.keys)->0;
            assert(ours == theirs);
            assert(theirs.len() == found.keys->0@.len());
            assert(ours.len() == asked.keys->0@.len());
            if 0 <= i < found.keys->0@.len() {
                assert(theirs[i] == found.keys->0@[i]@);
                assert(ours[i] == asked.keys->0@[i]@);
            }
        }
    }
}

/// What is seen of a filter is all of it.
pub proof fn law_filters_are_seen_whole(
    a: StarknetLiveEventFilter,
    b: StarknetLiveEventFilter,
    i: int,
)
    requires
        a@ == b@,
    ensures
        a.from_address == b.from_address,
        a.keys is Some <==> b.keys is Some,
        a.keys is Some ==> a.keys->0@.len() == b.keys->0@.len(),
        a.keys is Some && 0 <= i < a.keys->0@.len() ==> a.keys->0@[i]@ == b.keys->0@[i]@,
{
    if a.keys is Some {
        let ours = subscribe::optional_keys(a.keys)->0;
        let theirs = subscribe::optional_keys(b.keys)->0;
        assert(ours == theirs);
        assert(ours.len() == a.keys->0@.len() && theirs.len() == b.keys->0@.len());
        if 0 <= i < a.keys->0@.len() {
            assert(ours[i] == a.keys->0@[i]@);
            assert(theirs[i] == b.keys->0@[i]@);
        }
    }
}

} // verus!
