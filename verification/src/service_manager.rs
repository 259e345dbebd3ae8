//! The demonstration service that the context manager offers, and the
//! client's side of it.

use crate::binder_object::{FromProxy, Object, TransactionError};
use crate::bytes::{
    encode_int, lemma_le_digits_len, lemma_radix_pow_values, native_order, radix_pow, word_size,
};
use crate::formats::dead_simple::{
    dec_int, dec_len, dec_str, enc_bytes, DeadSimpleFormat, DeadSimpleFormatReader,
};
use crate::formats::roundtrip::{lemma_int_roundtrip, lemma_str_roundtrip};
use crate::formats::ReaderView;
use crate::object::{ObjectRef, ObjectRefRemote, CONTEXT_MANAGER_HANDLE};
use crate::packet::{Packet, PacketBuilder, PacketView};
use crate::transaction::{TransactionFlag, TransactionFlags};
use core::sync::atomic::{AtomicBool, Ordering};
use vstd::prelude::*;
use vstd::string::StringSliceAdditionalSpecFns;
use vstd::utf8::{encode_utf8, valid_utf8};

verus! {

/// The interface that the service implements.
pub const INTERFACE_ID: u64 = 0x5345_5256_4d47_5200;

/// Asks whether the service implements an interface, whose number
/// follows. Without anything behind it, it asks whether the service is
/// there at all.
pub const IS_IMPLEMENTED: u32 = 0x80;

/// Answers that the service implements the interface.
pub const IS_IMPLEMENTED_REPLY_YES: u32 = 0x7875;

/// Answers that the service does not implement the interface.
pub const IS_IMPLEMENTED_REPLY_NO: u32 = 0x7874;

/// Asks the service to stop.
pub const STOP: u32 = 0x100;

/// Answers that the service stops.
pub const STOP_REPLY: u32 = 0x100;

/// Asks for the length of a string.
pub const LENGTH_OF_STRING: u32 = 0x101;

/// Answers with the length of a string.
pub const LENGTH_REPLY: u32 = 0x100;

/// Asks the service to print a string.
pub const PRINT: u32 = 0x102;

/// Answers that the string was printed.
pub const PRINT_REPLY: u32 = 0x102;

/// Answers that the request could not be served; a message follows.
pub const ERROR_REPLY: u32 = 0x7fff;

/// What a service does with strings.
pub trait IAnService {
    /// Number of bytes of `string`.
    fn length_of_string(&self, string: &str) -> (length: usize)
        ensures
            length == string.spec_bytes().len(),
    ;

    /// Takes `data` to be shown.
    fn bwah_uwu(&self, data: &str) -> (shown: String)
        ensures
            shown@ == data@,
    ;
}

/// What serving a request asks of the one who runs the service.
#[derive(Clone, Debug, PartialEq, Eq)]
pub enum ServiceEffect {
    Nothing,
    /// Print this string.
    Print(String),
    /// Stop.
    Stop,
}

/// What serving a request asks of the one who runs the service, the
/// string as its bytes.
pub enum EffectView {
    Nothing,
    Print(Seq<u8>),
    Stop,
}

impl ServiceEffect {
    /// The effect, the string as its bytes.
    pub open spec fn view(&self) -> EffectView {
        match self {
            ServiceEffect::Nothing => EffectView::Nothing,
            ServiceEffect::Print(text) => EffectView::Print(encode_utf8(text@)),
            ServiceEffect::Stop => EffectView::Stop,
        }
    }
}

/// The service. It keeps whether it was asked to stop, for every thread
/// that serves to set and for the one that runs the service to see.
pub struct ServiceManager {
    stop_requested: AtomicBool,
}

/// The message with the code `code` and the payload `data`, without
/// flags or references, as the service and its clients exchange them.
pub open spec fn message_view(code: u32, data: Seq<u8>) -> PacketView {
    PacketView {
        code,
        flags: TransactionFlags::spec_empty(),
        target: ObjectRef::Remote(ObjectRefRemote { data_handle: CONTEXT_MANAGER_HANDLE }),
        data,
        offsets: Seq::empty(),
    }
}

/// The reply that tells of an error with the message `message`.
pub open spec fn error_view(message: Seq<u8>) -> PacketView {
    message_view(ERROR_REPLY, enc_bytes(native_order(), message))
}

/// The string at the start of the payload of `request`, if there is one.
pub open spec fn argument_of(request: PacketView) -> Option<Seq<u8>> {
    match dec_str(
        native_order(),
        ReaderView { data: request.data, offsets: request.offsets, pos: 0 },
    ) {
        Some((text, _)) => Some(text),
        None => None,
    }
}

/// The number of the interface at the start of the payload of `request`,
/// if there is one.
pub open spec fn interface_asked(request: PacketView) -> Option<int> {
    match dec_int(
        native_order(),
        ReaderView { data: request.data, offsets: request.offsets, pos: 0 },
        8,
        false,
    ) {
        Some((id, _)) => Some(id),
        None => None,
    }
}

/// The reply to `request`, for a request that expects one: to the question
/// for an interface yes where it is the service's own and no where it is
/// another, and yes where no payload came at all; to a stop the stop
/// reply; to a string whose length is asked for its length; to a string to
/// print the print reply; and the error reply where the number or the
/// string cannot be read or the code is none of these.
pub open spec fn reply_to(request: PacketView) -> PacketView {
    if request.code == IS_IMPLEMENTED {
        match interface_asked(request) {
            Some(id) => if id == INTERFACE_ID {
                message_view(IS_IMPLEMENTED_REPLY_YES, Seq::empty())
            } else {
                message_view(IS_IMPLEMENTED_REPLY_NO, Seq::empty())
            },
            None => if request.data.len() == 0 {
                message_view(IS_IMPLEMENTED_REPLY_YES, Seq::empty())
            } else {
                error_view("Malformed transaction".spec_bytes())
            },
        }
    } else if request.code == STOP {
        message_view(STOP_REPLY, Seq::empty())
    } else if request.code == LENGTH_OF_STRING {
        match argument_of(request) {
            Some(text) => message_view(
                LENGTH_REPLY,
                encode_int(native_order(), text.len() as int, word_size()),
            ),
            None => error_view("Malformed transaction".spec_bytes()),
        }
    } else if request.code == PRINT {
        match argument_of(request) {
            Some(text) => message_view(PRINT_REPLY, Seq::empty()),
            None => error_view("Malformed transaction".spec_bytes()),
        }
    } else {
        error_view("Unrecognized transaction code".spec_bytes())
    }
}

/// What `request` asks of the one who runs the service: to stop, to print
/// the string that came, or nothing.
pub open spec fn effect_of(request: PacketView) -> EffectView {
    if request.code == STOP {
        EffectView::Stop
    } else if request.code == PRINT {
        match argument_of(request) {
            Some(text) => EffectView::Print(text),
            None => EffectView::Nothing,
        }
    } else {
        EffectView::Nothing
    }
}

/// The message with the code `code` and no payload.
pub fn plain_message(code: u32) -> (reply: Packet)
    ensures
        reply.wf(),
        reply@ == message_view(code, Seq::empty()),
{
    let mut builder = PacketBuilder::new();
    builder.set_code(code).set_target(ObjectRef::Remote(ObjectRefRemote::context_manager()));
    builder.build()
}

/// The reply that tells of an error with the message `message`.
fn error_reply(message: &str) -> (reply: Packet)
    ensures
        reply.wf(),
        reply@ == error_view(message.spec_bytes()),
{
    let mut builder = PacketBuilder::new();
    builder.writer(DeadSimpleFormat::new()).write_str(message);
    builder.set_code(ERROR_REPLY).set_target(
        ObjectRef::Remote(ObjectRefRemote::context_manager()),
    );
    let reply = builder.build();
    assert(reply@.data =~= enc_bytes(native_order(), message.spec_bytes()));
    reply
}

impl ServiceManager {
    /// The service, not yet asked to stop.
    pub fn new() -> (service: ServiceManager) {
        ServiceManager { stop_requested: AtomicBool::new(false) }
    }

    /// Whether `interface_id` is the interface of the service.
    pub fn is_implemented(&self, interface_id: u64) -> (yes: bool)
        ensures
            yes == (interface_id == INTERFACE_ID),
    {
        interface_id == INTERFACE_ID
    }

    /// Takes note that the service was asked to stop.
    pub fn stop(&self) {
        self.stop_requested.store(true, Ordering::SeqCst);
    }

    /// Whether the service was asked to stop, as far as this thread sees
    /// it now.
    pub fn is_stop_requested(&self) -> (yes: bool) {
        self.stop_requested.load(Ordering::SeqCst)
    }

    /// Serves `packet`: the reply, which there is exactly where the request
    /// expects one, and what the one who runs the service is to do.
    pub fn handle(&self, packet: &Packet) -> (out: (Option<Packet>, ServiceEffect))
        requires
            packet.wf(),
        ensures
            out.1.view() == effect_of(packet@),
            match out.0 {
                Some(reply) => !packet@.flags.spec_contains(TransactionFlag::OneWay)
                    && reply.wf() && reply@ == reply_to(packet@),
                None => packet@.flags.spec_contains(TransactionFlag::OneWay),
            },
    {
        let one_way = packet.get_flags().contains(TransactionFlag::OneWay);
        let code = packet.get_code();
        let mut effect = ServiceEffect::Nothing;
        let reply = if code == IS_IMPLEMENTED {
            let mut reader = packet.reader(DeadSimpleFormatReader::new());
            match reader.read_u64() {
                Ok(interface_id) => {
                    if self.is_implemented(interface_id) {
                        plain_message(IS_IMPLEMENTED_REPLY_YES)
                    } else {
                        plain_message(IS_IMPLEMENTED_REPLY_NO)
                    }
                },
                Err(_) => {
                    if packet.get_data().len() == 0 {
                        plain_message(IS_IMPLEMENTED_REPLY_YES)
                    } else {
                        error_reply("Malformed transaction")
                    }
                },
            }
        } else if code == STOP {
            effect = ServiceEffect::Stop;
            plain_message(STOP_REPLY)
        } else if code == LENGTH_OF_STRING {
            let mut reader = packet.reader(DeadSimpleFormatReader::new());
            match reader.read_str() {
                Ok(text) => {
                    let mut builder = PacketBuilder::new();
                    builder.writer(DeadSimpleFormat::new()).write_usize(
                        self.length_of_string(text),
                    );
                    builder.set_code(LENGTH_REPLY).set_target(
                        ObjectRef::Remote(ObjectRefRemote::context_manager()),
                    );
                    let reply = builder.build();
                    assert(reply@.data =~= encode_int(
                        native_order(),
                        text.spec_bytes().len() as int,
                        word_size(),
                    ));
                    reply
                },
                Err(_) => error_reply("Malformed transaction"),
            }
        } else if code == PRINT {
            let mut reader = packet.reader(DeadSimpleFormatReader::new());
            match reader.read_str() {
                Ok(text) => {
                    effect = ServiceEffect::Print(self.bwah_uwu(text));
                    plain_message(PRINT_REPLY)
                },
                Err(_) => error_reply("Malformed transaction"),
            }
        } else {
            error_reply("Unrecognized transaction code")
        };
        if one_way {
            (None, effect)
        } else {
            (Some(reply), effect)
        }
    }
}

impl IAnService for ServiceManager {
    fn length_of_string(&self, string: &str) -> (length: usize) {
        string.as_bytes().len()
    }

    fn bwah_uwu(&self, data: &str) -> (shown: String) {
        data.to_owned()
    }
}

impl Object for ServiceManager {
    /// No error; the reply to the request where it expects one, and none
    /// where it expects none, whatever it asks.
    open spec fn answers(
        &self,
        packet: PacketView,
        result: Result<Option<Packet>, TransactionError>,
    ) -> bool {
        match result {
            Ok(Some(reply)) => !packet.flags.spec_contains(TransactionFlag::OneWay) && reply.wf()
                && reply@ == reply_to(packet),
            Ok(None) => packet.flags.spec_contains(TransactionFlag::OneWay),
            Err(_) => false,
        }
    }

    /// Serves `packet` and takes note where it asks to stop. A string to
    /// print is left to whoever calls `handle`.
    fn do_transaction(&self, packet: &Packet) -> (r: Result<Option<Packet>, TransactionError>) {
        let (reply, effect) = self.handle(packet);
        match effect {
            ServiceEffect::Stop => {
                self.stop();
            },
            _ => {},
        }
        Ok(reply)
    }
}

/// Whether `result` holds a well-formed reply.
pub open spec fn has_reply(result: Result<Option<Packet>, TransactionError>) -> bool {
    result matches Ok(Some(reply)) && reply.wf()
}

/// Whether `r` is what the result `result` of a transaction that expects
/// the reply `expected` means to the one who asked.
pub open spec fn is_outcome(
    result: Result<Option<Packet>, TransactionError>,
    expected: u32,
    r: Result<(), TransactionError>,
) -> bool {
    match result {
        Err(error) => r == Err::<(), TransactionError>(error),
        Ok(Some(reply)) if reply.wf() => if reply@.code == expected {
            r is Ok
        } else {
            is_refusal(reply@, r)
        },
        Ok(_) => r == Err::<(), TransactionError>(TransactionError::MalformedReply),
    }
}

/// Whether `r` is the error that the reply `reply`, which is not the one
/// expected, means: the error of the service with its message where the
/// reply tells of one, and a malformed reply else.
pub open spec fn is_refusal<T>(reply: PacketView, r: Result<T, TransactionError>) -> bool {
    match r {
        Ok(_) => false,
        Err(TransactionError::RemoteError(message)) => reply.code == ERROR_REPLY && argument_of(
            reply,
        ) == Some(encode_utf8(message@)),
        Err(TransactionError::MalformedReply) => reply.code != ERROR_REPLY || argument_of(reply)
            is None,
        Err(_) => false,
    }
}

/// What the result of a transaction that expects a reply means to the one
/// who asked: the error of the transaction where it failed; nothing more
/// where the reply has the code expected; the error of the service where
/// the reply tells of one with its message; and a malformed reply else,
/// also where none came.
pub fn outcome_of(result: Result<Option<Packet>, TransactionError>, expected: u32) -> (r: Result<
    (),
    TransactionError,
>)
    ensures
        is_outcome(result, expected, r),
{
    match result {
        Err(error) => Err(error),
        Ok(None) => Err(TransactionError::MalformedReply),
        Ok(Some(reply)) => {
            if !reply.is_well_formed() {
                return Err(TransactionError::MalformedReply);
            }
            if reply.get_code() == expected {
                return Ok(());
            }
            if reply.get_code() == ERROR_REPLY {
                let mut reader = reply.reader(DeadSimpleFormatReader::new());
                match reader.read_str() {
                    Ok(message) => {
                        return Err(TransactionError::RemoteError(message.to_owned()));
                    },
                    Err(_) => {},
                }
            }
            Err(TransactionError::MalformedReply)
        },
    }
}

/// The length at the start of the payload of `reply`, if there is one.
pub open spec fn length_in(reply: PacketView) -> Option<int> {
    match dec_len(
        native_order(),
        ReaderView { data: reply.data, offsets: reply.offsets, pos: 0 },
    ) {
        Some((length, _)) => Some(length),
        None => None,
    }
}

/// Whether `r` is what the result `result` of asking for a length means
/// to the one who asked.
pub open spec fn is_length(
    result: Result<Option<Packet>, TransactionError>,
    r: Result<usize, TransactionError>,
) -> bool {
    match result {
        Err(error) => r == Err::<usize, TransactionError>(error),
        Ok(Some(reply)) if reply.wf() => if reply@.code == LENGTH_REPLY {
            match length_in(reply@) {
                Some(length) => r matches Ok(found) && found == length,
                None => r == Err::<usize, TransactionError>(TransactionError::MalformedReply),
            }
        } else {
            is_refusal(reply@, r)
        },
        Ok(_) => r == Err::<usize, TransactionError>(TransactionError::MalformedReply),
    }
}

/// The length that the result of asking for one carries: the error of the
/// transaction where it failed; the length in the reply where it is a
/// length reply; the error of the service where the reply tells of one
/// with its message; and a malformed reply else, also where none came or
/// the length reply holds no length.
pub fn length_of(result: Result<Option<Packet>, TransactionError>) -> (r: Result<
    usize,
    TransactionError,
>)
    ensures
        is_length(result, r),
{
    match result {
        Ok(Some(reply)) => {
            if reply.is_well_formed() && reply.get_code() == LENGTH_REPLY {
                let mut reader = reply.reader(DeadSimpleFormatReader::new());
                match reader.read_usize() {
                    Ok(length) => Ok(length),
                    Err(_) => Err(TransactionError::MalformedReply),
                }
            } else {
                match outcome_of(Ok(Some(reply)), LENGTH_REPLY) {
                    Ok(_) => Err(TransactionError::MalformedReply),
                    Err(error) => Err(error),
                }
            }
        },
        other => match outcome_of(other, LENGTH_REPLY) {
            Ok(_) => Err(TransactionError::MalformedReply),
            Err(error) => Err(error),
        },
    }
}

/// The question whether the interface `interface_id` is implemented.
pub open spec fn query_view(interface_id: u64) -> PacketView {
    message_view(IS_IMPLEMENTED, encode_int(native_order(), interface_id as int, 8))
}

/// The question whether the interface `interface_id` is implemented.
pub fn query_for(interface_id: u64) -> (request: Packet)
    ensures
        request.wf(),
        request@ == query_view(interface_id),
{
    let mut builder = PacketBuilder::new();
    builder.writer(DeadSimpleFormat::new()).write_u64(interface_id);
    builder.set_code(IS_IMPLEMENTED).set_target(
        ObjectRef::Remote(ObjectRefRemote::context_manager()),
    );
    let request = builder.build();
    assert(request@.data =~= encode_int(native_order(), interface_id as int, 8));
    request
}

/// Whether `r` is what the result `result` of asking for an interface
/// means to the one who asked.
pub open spec fn is_answer(
    result: Result<Option<Packet>, TransactionError>,
    r: Result<bool, TransactionError>,
) -> bool {
    match result {
        Err(error) => r == Err::<bool, TransactionError>(error),
        Ok(Some(reply)) if reply.wf() => if reply@.code == IS_IMPLEMENTED_REPLY_YES {
            r == Ok::<bool, TransactionError>(true)
        } else if reply@.code == IS_IMPLEMENTED_REPLY_NO {
            r == Ok::<bool, TransactionError>(false)
        } else {
            is_refusal(reply@, r)
        },
        Ok(_) => r == Err::<bool, TransactionError>(TransactionError::MalformedReply),
    }
}

/// What the result of asking for an interface says: the error of the
/// transaction where it failed; yes or no where the reply is the one or
/// the other; the error of the service where the reply tells of one with
/// its message; and a malformed reply else, also where none came.
pub fn answer_of(result: Result<Option<Packet>, TransactionError>) -> (r: Result<
    bool,
    TransactionError,
>)
    ensures
        is_answer(result, r),
{
    match result {
        Ok(Some(reply)) => {
            if reply.is_well_formed() && reply.get_code() == IS_IMPLEMENTED_REPLY_NO {
                Ok(false)
            } else {
                match outcome_of(Ok(Some(reply)), IS_IMPLEMENTED_REPLY_YES) {
                    Ok(_) => Ok(true),
                    Err(error) => Err(error),
                }
            }
        },
        other => match outcome_of(other, IS_IMPLEMENTED_REPLY_YES) {
            Ok(_) => Err(TransactionError::MalformedReply),
            Err(error) => Err(error),
        },
    }
}

/// The request with the code `code` and the flags `flags` that carries
/// the string with the bytes `text`.
pub open spec fn request_view(code: u32, flags: TransactionFlags, text: Seq<u8>) -> PacketView {
    PacketView {
        code,
        flags,
        target: ObjectRef::Remote(ObjectRefRemote { data_handle: CONTEXT_MANAGER_HANDLE }),
        data: enc_bytes(native_order(), text),
        offsets: Seq::empty(),
    }
}

/// The request with the code `code` and the flags `flags` that carries
/// `text`.
pub fn request_with(code: u32, flags: TransactionFlags, text: &str) -> (request: Packet)
    ensures
        request.wf(),
        request@ == request_view(code, flags, text.spec_bytes()),
{
    let mut builder = PacketBuilder::new();
    builder.writer(DeadSimpleFormat::new()).write_str(text);
    builder.set_code(code).set_flags(flags).set_target(
        ObjectRef::Remote(ObjectRefRemote::context_manager()),
    );
    let request = builder.build();
    assert(request@.data =~= enc_bytes(native_order(), text.spec_bytes()));
    request
}

/// The service finds the string that a request carries.
pub proof fn lemma_argument_arrives(code: u32, flags: TransactionFlags, text: Seq<u8>)
    requires
        valid_utf8(text),
        text.len() < radix_pow(word_size()),
    ensures
        argument_of(request_view(code, flags, text)) == Some(text),
{
    let request = request_view(code, flags, text);
    let v = ReaderView { data: request.data, offsets: request.offsets, pos: 0 };
    lemma_le_digits_len(text.len(), word_size());
    assert(v.bytes_at(0, (word_size() + text.len()) as int) =~= enc_bytes(native_order(), text));
    lemma_str_roundtrip(native_order(), v, text);
}

/// Whoever asks for the length of a string gets the length reply, and
/// reads in it the number of bytes of the string.
pub proof fn lemma_length_answered(flags: TransactionFlags, text: Seq<u8>)
    requires
        valid_utf8(text),
        text.len() < radix_pow(word_size()),
    ensures
        reply_to(request_view(LENGTH_OF_STRING, flags, text)).code == LENGTH_REPLY,
        length_in(reply_to(request_view(LENGTH_OF_STRING, flags, text))) == Some(
            text.len() as int,
        ),
{
    lemma_argument_arrives(LENGTH_OF_STRING, flags, text);
    let reply = reply_to(request_view(LENGTH_OF_STRING, flags, text));
    let v = ReaderView { data: reply.data, offsets: reply.offsets, pos: 0 };
    lemma_le_digits_len(text.len(), word_size());
    assert(v.bytes_at(0, word_size() as int) =~= encode_int(
        native_order(),
        text.len() as int,
        word_size(),
    ));
    lemma_int_roundtrip(native_order(), v, text.len() as int, word_size(), false);
}

/// Whoever asks to print a string gets the print reply, and the service
/// asks to print that string.
pub proof fn lemma_print_served(flags: TransactionFlags, text: Seq<u8>)
    requires
        valid_utf8(text),
        text.len() < radix_pow(word_size()),
    ensures
        reply_to(request_view(PRINT, flags, text)) == message_view(PRINT_REPLY, Seq::empty()),
        effect_of(request_view(PRINT, flags, text)) == EffectView::Print(text),
{
    lemma_argument_arrives(PRINT, flags, text);
}

/// The service gives no reply to a transaction that expects none,
/// whatever it asks, and a reply to every other.
pub proof fn lemma_one_way_unanswered(
    service: ServiceManager,
    request: PacketView,
    result: Result<Option<Packet>, TransactionError>,
)
    requires
        service.answers(request, result),
    ensures
        result is Ok,
        request.flags.spec_contains(TransactionFlag::OneWay) <==> result->Ok_0 is None,
{
}

/// Whoever asks the service for an interface is told yes for the
/// service's own and no for every other; and whoever asks without naming
/// one is told yes.
pub proof fn lemma_query_answered(interface_id: u64)
    ensures
        reply_to(query_view(interface_id)) == message_view(
            if interface_id == INTERFACE_ID {
                IS_IMPLEMENTED_REPLY_YES
            } else {
                IS_IMPLEMENTED_REPLY_NO
            },
            Seq::empty(),
        ),
        reply_to(message_view(IS_IMPLEMENTED, Seq::empty())) == message_view(
            IS_IMPLEMENTED_REPLY_YES,
            Seq::empty(),
        ),
{
    let request = query_view(interface_id);
    let v = ReaderView { data: request.data, offsets: request.offsets, pos: 0 };
    lemma_radix_pow_values();
    lemma_le_digits_len(interface_id as nat, 8);
    assert(v.bytes_at(0, 8) =~= encode_int(native_order(), interface_id as int, 8));
    lemma_int_roundtrip(native_order(), v, interface_id as int, 8, false);
}

/// The client's side of the service: it turns calls into transactions to
/// the proxy that it holds.
pub struct IServiceManagerProxy<P> {
    proxy: P,
}

impl<P: Object> IServiceManagerProxy<P> {
    /// The proxy that the transactions go to.
    pub closed spec fn spec_proxy(&self) -> P {
        self.proxy
    }

    /// Asks the service whether it implements the interface
    /// `interface_id`: the answer in what the proxy gives for the
    /// question.
    pub fn is_implemented(&self, interface_id: u64) -> (r: Result<bool, TransactionError>)
        ensures
            exists|result: Result<Option<Packet>, TransactionError>| #[trigger]
                self.spec_proxy().answers(query_view(interface_id), result) && is_answer(
                    result,
                    r,
                ),
    {
        let request = query_for(interface_id);
        let result = self.proxy.do_transaction(&request);
        let ghost given = result;
        let r = answer_of(result);
        assert(self.spec_proxy().answers(request@, given) && is_answer(given, r));
        r
    }

    /// Asks the service to print `data` and waits for its answer: the
    /// outcome of what the proxy gives for the request.
    pub fn print(&self, data: &str) -> (r: Result<(), TransactionError>)
        ensures
            exists|result: Result<Option<Packet>, TransactionError>| #[trigger]
                self.spec_proxy().answers(
                    request_view(PRINT, TransactionFlags::spec_empty(), data.spec_bytes()),
                    result,
                ) && is_outcome(result, PRINT_REPLY, r),
    {
        let request = request_with(PRINT, TransactionFlags::empty(), data);
        let result = self.proxy.do_transaction(&request);
        let ghost given = result;
        let r = outcome_of(result, PRINT_REPLY);
        assert(self.spec_proxy().answers(request@, given) && is_outcome(given, PRINT_REPLY, r));
        r
    }

    /// Asks the service to print `data` and does not wait: the error of
    /// the transaction where it failed, and nothing more else.
    pub fn oneway_print(&self, data: &str) -> (r: Result<(), TransactionError>)
        ensures
            exists|result: Result<Option<Packet>, TransactionError>| #[trigger]
                self.spec_proxy().answers(
                    request_view(
                        PRINT,
                        TransactionFlags::spec_empty().spec_with(TransactionFlag::OneWay),
                        data.spec_bytes(),
                    ),
                    result,
                ) && (match result {
                    Ok(_) => r is Ok,
                    Err(error) => r == Err::<(), TransactionError>(error),
                }),
    {
        let request = request_with(
            PRINT,
            TransactionFlags::empty().with(TransactionFlag::OneWay),
            data,
        );
        let result = self.proxy.do_transaction(&request);
        assert(self.spec_proxy().answers(request@, result));
        match result {
            Ok(_) => Ok(()),
            Err(error) => Err(error),
        }
    }

    /// Asks the service for the length of `string`: the length that what
    /// the proxy gives for the request carries.
    pub fn length_of_string(&self, string: &str) -> (r: Result<usize, TransactionError>)
        ensures
            exists|result: Result<Option<Packet>, TransactionError>| #[trigger]
                self.spec_proxy().answers(
                    request_view(
                        LENGTH_OF_STRING,
                        TransactionFlags::spec_empty(),
                        string.spec_bytes(),
                    ),
                    result,
                ) && is_length(result, r),
    {
        let request = request_with(LENGTH_OF_STRING, TransactionFlags::empty(), string);
        let result = self.proxy.do_transaction(&request);
        let ghost given = result;
        let r = length_of(result);
        assert(self.spec_proxy().answers(request@, given) && is_length(given, r));
        r
    }

    /// Asks the service to stop and waits for its answer: the outcome of
    /// what the proxy gives for the request.
    pub fn stop(&self) -> (r: Result<(), TransactionError>)
        ensures
            exists|result: Result<Option<Packet>, TransactionError>| #[trigger]
                self.spec_proxy().answers(message_view(STOP, Seq::empty()), result) && is_outcome(
                    result,
                    STOP_REPLY,
                    r,
                ),
    {
        let request = plain_message(STOP);
        let result = self.proxy.do_transaction(&request);
        let ghost given = result;
        let r = outcome_of(result, STOP_REPLY);
        assert(self.spec_proxy().answers(request@, given) && is_outcome(given, STOP_REPLY, r));
        r
    }
}

impl<P: Object> FromProxy<P> for IServiceManagerProxy<P> {
    /// The client that holds `proxy`, exactly where what the proxy gives
    /// for the question for the service's interface says yes.
    open spec fn makes(proxy: P, r: Result<Self, ()>) -> bool {
        &&& r matches Ok(client) ==> client.spec_proxy() == proxy
        &&& exists|result: Result<Option<Packet>, TransactionError>| #[trigger]
            proxy.answers(query_view(INTERFACE_ID), result) && (r is Ok <==> is_answer(
                result,
                Ok(true),
            ))
    }

    /// Asks through the proxy whether the other side implements the
    /// interface of the service, and takes the proxy exactly where the
    /// answer is yes.
    fn from_proxy(proxy: P) -> (r: Result<Self, ()>)
        ensures
            r matches Ok(client) ==> client.spec_proxy() == proxy,
            exists|result: Result<Option<Packet>, TransactionError>| #[trigger]
                proxy.answers(query_view(INTERFACE_ID), result) && (r is Ok <==> is_answer(
                    result,
                    Ok(true),
                )),
    {
        let request = query_for(INTERFACE_ID);
        let result = proxy.do_transaction(&request);
        let ghost given = result;
        let answer = answer_of(result);
        assert(proxy.answers(request@, given) && is_answer(given, answer));
        match answer {
            Ok(true) => Ok(IServiceManagerProxy { proxy }),
            _ => Err(()),
        }
    }
}

} // verus!
