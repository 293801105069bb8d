//! Tells TLS from plain HTTP by the first bytes of a stream, and reads the
//! server name out of a ClientHello that may be spread over records and reads.
//!
//! `stream_outcome` says what a stream is, as a function of its bytes. The
//! classifier takes the stream in pieces and keeps no more of it than the
//! declared ClientHello; `law_pieces` ties the two together.

use vstd::prelude::*;
use vstd::slice::slice_subrange;
use vstd::string::StringSliceAdditionalSpecFns;

pub use crate::client_hello::ParseError;
use crate::client_hello::parse_client_hello;

verus! {

/// The record type of the handshake protocol.
pub const TLS_HANDSHAKE: u8 = 22;

/// The handshake type of a ClientHello.
pub const CLIENT_HELLO: u8 = 1;

/// The longest payload of a record.
pub const MAX_RECORD_LEN: usize = 18_432;

/// What a stream turned out to be.
#[derive(Clone, Debug, PartialEq, Eq)]
pub enum Classification {
    PlainHttp,
    Tls { sni: Option<String> },
}

/// How far the classification of a stream has come.
#[derive(Clone, Debug, PartialEq, Eq)]
pub enum ParseProgress {
    NeedMore,
    Complete(Classification),
}

/// `Classification` over views.
pub enum ClassificationView {
    PlainHttp,
    Tls { sni: Option<Seq<char>> },
}

/// What a push answers, over views.
pub enum Outcome {
    NeedMore,
    Complete(ClassificationView),
    Invalid(Seq<char>),
}

impl View for Classification {
    type V = ClassificationView;

    open spec fn view(&self) -> ClassificationView {
        match self {
            Classification::PlainHttp => ClassificationView::PlainHttp,
            Classification::Tls { sni: Some(name) } => ClassificationView::Tls {
                sni: Some(name@),
            },
            Classification::Tls { sni: None } => ClassificationView::Tls { sni: None },
        }
    }
}

/// The view of what a push answers.
pub open spec fn outcome(result: Result<ParseProgress, ParseError>) -> Outcome {
    match result {
        Ok(ParseProgress::NeedMore) => Outcome::NeedMore,
        Ok(ParseProgress::Complete(classification)) => Outcome::Complete(classification@),
        Err(error) => Outcome::Invalid(error@),
    }
}

/// The request methods, each with the blank that follows it, that make a
/// stream plain HTTP.
pub open spec fn methods() -> Seq<Seq<u8>> {
    seq![
        "GET ".spec_bytes(),
        "HEAD ".spec_bytes(),
        "POST ".spec_bytes(),
        "PUT ".spec_bytes(),
        "DELETE ".spec_bytes(),
        "OPTIONS ".spec_bytes(),
        "PATCH ".spec_bytes(),
        "CONNECT ".spec_bytes(),
        "TRACE ".spec_bytes(),
    ]
}

/// The bytes start with a method.
pub open spec fn starts_with_method(bytes: Seq<u8>) -> bool {
    exists|i: int| 0 <= i < methods().len() && (#[trigger] methods()[i]).is_prefix_of(bytes)
}

/// The bytes are the start of a method.
pub open spec fn starts_a_method(bytes: Seq<u8>) -> bool {
    exists|i: int| 0 <= i < methods().len() && bytes.is_prefix_of(#[trigger] methods()[i])
}

/// The payload length that a record header declares.
pub open spec fn record_len(header: Seq<u8>) -> Result<int, Seq<char>> {
    let len = crate::client_hello::be16(header, 3);
    if header[0] != TLS_HANDSHAKE {
        Err("unexpected TLS record type"@)
    } else if header[1] != 3 || !(1 <= header[2] <= 4) {
        Err("unsupported TLS record version"@)
    } else if len == 0 || len > MAX_RECORD_LEN {
        Err("invalid TLS record length"@)
    } else {
        Ok(len)
    }
}

/// The length of a handshake message, its four header bytes included.
pub open spec fn message_len(handshake: Seq<u8>) -> int {
    handshake[1] * 65536 + handshake[2] * 256 + handshake[3] + 4
}

/// What the handshake bytes of the records read so far amount to.
pub open spec fn handshake_outcome(handshake: Seq<u8>) -> Outcome {
    if handshake.len() < 4 {
        Outcome::NeedMore
    } else if handshake[0] != CLIENT_HELLO {
        Outcome::Invalid("first handshake is not ClientHello"@)
    } else if message_len(handshake) == 4 {
        Outcome::Invalid("empty ClientHello"@)
    } else if handshake.len() < message_len(handshake) {
        Outcome::NeedMore
    } else {
        match crate::client_hello::hello_sni(handshake.subrange(4, message_len(handshake))) {
            Ok(sni) => Outcome::Complete(ClassificationView::Tls { sni }),
            Err(message) => Outcome::Invalid(message),
        }
    }
}

/// What a stream of records is, after records that held `handshake`. Only whole
/// records count.
pub open spec fn records_outcome(handshake: Seq<u8>, stream: Seq<u8>) -> Outcome
    decreases stream.len(),
{
    if stream.len() < 5 {
        Outcome::NeedMore
    } else {
        match record_len(stream.take(5)) {
            Err(message) => Outcome::Invalid(message),
            Ok(len) => if stream.len() < 5 + len {
                Outcome::NeedMore
            } else {
                let more = handshake + stream.subrange(5, 5 + len);
                match handshake_outcome(more) {
                    Outcome::NeedMore => records_outcome(more, stream.skip(5 + len)),
                    done => done,
                }
            },
        }
    }
}

/// What a stream is.
pub open spec fn stream_outcome(stream: Seq<u8>) -> Outcome {
    if stream.len() == 0 {
        Outcome::NeedMore
    } else if stream[0] == TLS_HANDSHAKE {
        records_outcome(Seq::empty(), stream)
    } else if starts_with_method(stream) {
        Outcome::Complete(ClassificationView::PlainHttp)
    } else if stream.len() < 8 && starts_a_method(stream) {
        Outcome::NeedMore
    } else {
        Outcome::Invalid("neither TLS nor supported plain HTTP"@)
    }
}

/// The part of the handshake bytes that is kept: up to the end of the first
/// message.
pub open spec fn retained(handshake: Seq<u8>) -> Seq<u8> {
    if handshake.len() < 4 || handshake.len() <= message_len(handshake) {
        handshake
    } else {
        handshake.take(message_len(handshake))
    }
}

/// A deframer between two pushes: the part of a record header that has come,
/// the payload bytes of that record that have not, and the handshake bytes kept.
#[verifier::ext_equal]
pub struct DeframerView {
    pub header: Seq<u8>,
    pub remaining: nat,
    pub handshake: Seq<u8>,
}

/// A deframer before the first byte.
pub open spec fn fresh_deframer() -> DeframerView {
    DeframerView { header: Seq::empty(), remaining: 0, handshake: Seq::empty() }
}

/// The lesser of two numbers.
pub open spec fn least(a: int, b: int) -> int {
    if a <= b {
        a
    } else {
        b
    }
}

/// The record header completed from the input, or where that stops: on a
/// header that is still short, or on a bad one.
pub open spec fn with_header(d: DeframerView, input: Seq<u8>) -> Result<
    (DeframerView, Seq<u8>),
    (DeframerView, Outcome),
> {
    if d.header.len() >= 5 {
        Ok((d, input))
    } else {
        let copied = least(input.len() as int, 5 - d.header.len());
        let header = d.header + input.take(copied);
        if header.len() < 5 {
            Err((DeframerView { header, ..d }, Outcome::NeedMore))
        } else {
            match record_len(header) {
                Err(message) => Err((DeframerView { header, ..d }, Outcome::Invalid(message))),
                Ok(len) => Ok(
                    (DeframerView { header, remaining: len as nat, ..d }, input.skip(copied)),
                ),
            }
        }
    }
}

/// The record's payload taken from the input, or where that stops: on a
/// record that is still short, or on a message that is decided.
pub open spec fn with_payload(d: DeframerView, input: Seq<u8>) -> Result<
    (DeframerView, Seq<u8>),
    (DeframerView, Outcome),
> {
    let consumed = least(input.len() as int, d.remaining as int);
    at_record_end(
        DeframerView {
            remaining: (d.remaining - consumed) as nat,
            handshake: retained(d.handshake + input.take(consumed)),
            ..d
        },
        input.skip(consumed),
    )
}

/// What follows a read of payload bytes: more of the record, the next record,
/// or the decision.
pub open spec fn at_record_end(d: DeframerView, rest: Seq<u8>) -> Result<
    (DeframerView, Seq<u8>),
    (DeframerView, Outcome),
> {
    if d.remaining != 0 {
        Err((d, Outcome::NeedMore))
    } else {
        match handshake_outcome(d.handshake) {
            Outcome::NeedMore => Ok((d, rest)),
            done => Err((d, done)),
        }
    }
}

/// What a deframer makes of more bytes: record after record, to the end of the
/// input or until the message is decided.
pub open spec fn deframe(d: DeframerView, input: Seq<u8>) -> (DeframerView, Outcome)
    decreases input.len(), d.header.len(),
{
    if input.len() == 0 {
        (d, Outcome::NeedMore)
    } else {
        match with_header(d, input) {
            Err(stop) => stop,
            Ok((headed, payload)) => match with_payload(headed, payload) {
                Err(stop) => stop,
                Ok((ended, rest)) => deframe(
                    DeframerView { header: Seq::empty(), ..ended },
                    rest,
                ),
            },
        }
    }
}

/// A classifier between two pushes.
#[verifier::ext_equal]
pub enum ClassifierView {
    /// Not yet told apart; the bytes so far, at most eight.
    Detect(Seq<u8>),
    Framing(DeframerView),
    Complete,
}

/// What a classifier makes of the first bytes of a stream, up to eight, that
/// does not start as TLS does.
pub open spec fn detect(bytes: Seq<u8>) -> (ClassifierView, Outcome) {
    if starts_with_method(bytes) {
        (ClassifierView::Complete, Outcome::Complete(ClassificationView::PlainHttp))
    } else if bytes.len() < 8 && starts_a_method(bytes) {
        (ClassifierView::Detect(bytes), Outcome::NeedMore)
    } else {
        (
            ClassifierView::Detect(bytes),
            Outcome::Invalid("neither TLS nor supported plain HTTP"@),
        )
    }
}

/// What a classifier makes of more bytes.
pub open spec fn push_spec(state: ClassifierView, input: Seq<u8>) -> (ClassifierView, Outcome) {
    match state {
        ClassifierView::Detect(prefix) => if input.len() == 0 {
            (state, Outcome::NeedMore)
        } else if prefix.len() == 0 && input[0] == TLS_HANDSHAKE {
            let (d, out) = deframe(fresh_deframer(), input);
            match out {
                Outcome::NeedMore => (ClassifierView::Framing(d), out),
                Outcome::Complete(_) => (ClassifierView::Complete, out),
                Outcome::Invalid(_) => (state, out),
            }
        } else {
            detect(prefix + input.take(least(input.len() as int, 8 - prefix.len())))
        },
        ClassifierView::Framing(d) => {
            let (next, out) = deframe(d, input);
            match out {
                Outcome::Complete(_) => (ClassifierView::Complete, out),
                _ => (ClassifierView::Framing(next), out),
            }
        },
        ClassifierView::Complete => (
            state,
            Outcome::Invalid("classifier already completed"@),
        ),
    }
}

/// Incremental TLS/HTTP classifier.
///
/// Each input byte is deframed at most once. Only the first handshake message
/// is retained, and bytes after its declared length are skipped.
pub struct Classifier {
    state: ClassifierState,
}

enum ClassifierState {
    DetectHttp { prefix: [u8; 8], prefix_len: usize },
    Tls(TlsDeframer),
    Complete,
}

struct TlsDeframer {
    record_header: [u8; 5],
    record_header_len: usize,
    record_payload_remaining: usize,
    handshake: Vec<u8>,
    handshake_total_len: Option<usize>,
}

/// How the reading of a header or a payload ends.
enum Step<'a> {
    /// It is complete; the input that follows.
    Next(&'a [u8]),
    Stop(ParseProgress),
}

spec fn step_view(d: DeframerView, step: Result<Step<'_>, ParseError>) -> Result<
    (DeframerView, Seq<u8>),
    (DeframerView, Outcome),
> {
    match step {
        Ok(Step::Next(rest)) => Ok((d, rest@)),
        Ok(Step::Stop(progress)) => Err((d, outcome(Ok(progress)))),
        Err(error) => Err((d, outcome(Err(error)))),
    }
}

impl TlsDeframer {
    spec fn wf(&self) -> bool {
        &&& self.record_header_len <= 5
        &&& self.handshake_total_len is Some <==> self.handshake@.len() >= 4
        &&& self.handshake_total_len matches Some(total) ==> total == message_len(self.handshake@)
        &&& retained(self.handshake@) == self.handshake@
    }

    spec fn model(&self) -> DeframerView {
        DeframerView {
            header: self.record_header@.take(self.record_header_len as int),
            remaining: self.record_payload_remaining as nat,
            handshake: self.handshake@,
        }
    }

    fn new() -> (deframer: Self)
        ensures
            deframer.wf(),
            deframer.model() == fresh_deframer(),
    {
        let deframer = TlsDeframer {
            record_header: [0; 5],
            record_header_len: 0,
            record_payload_remaining: 0,
            handshake: Vec::new(),
            handshake_total_len: None,
        };
        assert(deframer.model() =~= fresh_deframer());
        deframer
    }

    fn append_handshake(&mut self, payload: &[u8])
        requires
            old(self).wf(),
        ensures
            final(self).wf(),
            final(self).record_header == old(self).record_header,
            final(self).record_header_len == old(self).record_header_len,
            final(self).record_payload_remaining == old(self).record_payload_remaining,
            final(self).model() == (DeframerView {
                handshake: retained(old(self).handshake@ + payload@),
                ..old(self).model()
            }),
    {
        let ghost whole = self.handshake@ + payload@;
        let mut start: usize = 0;
        if self.handshake.len() < 4 {
            let missing = 4 - self.handshake.len();
            start = if payload.len() < missing { payload.len() } else { missing };
            self.handshake.extend_from_slice(slice_subrange(payload, 0, start));
            assert(self.handshake@ =~= whole.take(self.handshake@.len() as int));
            if self.handshake.len() == 4 {
                self.handshake_total_len = Some(declared_len(self.handshake.as_slice()));
            }
        }
        let total = match self.handshake_total_len {
            Some(total) => total,
            None => {
                assert(self.handshake@ =~= whole);
                return;
            },
        };
        assert(total == message_len(whole));
        let room = total.saturating_sub(self.handshake.len());
        let left = payload.len() - start;
        let copied = if left < room { left } else { room };
        self.handshake.reserve(copied);
        self.handshake.extend_from_slice(slice_subrange(payload, start, start + copied));
        assert(self.handshake@ =~= retained(whole));
    }

    fn push(&mut self, input: &[u8]) -> (progress: Result<ParseProgress, ParseError>)
        requires
            old(self).wf(),
        ensures
            final(self).wf(),
            (final(self).model(), outcome(progress)) == deframe(old(self).model(), input@),
    {
        let mut rest = input;
        while rest.len() > 0
            invariant
                self.wf(),
                deframe(self.model(), rest@) == deframe(old(self).model(), input@),
            decreases rest@.len(), self.record_header_len,
        {
            let payload = match self.read_header(rest)? {
                Step::Next(payload) => payload,
                Step::Stop(progress) => return Ok(progress),
            };
            rest = match self.read_payload(payload)? {
                Step::Next(rest) => rest,
                Step::Stop(progress) => return Ok(progress),
            };
            self.record_header_len = 0;
            assert(self.record_header@.take(0) =~= Seq::empty());
        }
        Ok(ParseProgress::NeedMore)
    }

    /// Takes what is missing of the record header and checks the whole.
    fn read_header<'a>(&mut self, input: &'a [u8]) -> (step: Result<Step<'a>, ParseError>)
        requires
            old(self).wf(),
        ensures
            final(self).wf(),
            step is Ok && step->Ok_0 is Next ==> final(self).record_header_len == 5,
            step_view(final(self).model(), step) == with_header(old(self).model(), input@),
    {
        if self.record_header_len >= 5 {
            return Ok(Step::Next(input));
        }
        let missing = 5 - self.record_header_len;
        let copied = if input.len() < missing { input.len() } else { missing };
        self.fill_header(input, copied);
        if self.record_header_len < 5 {
            return Ok(Step::Stop(ParseProgress::NeedMore));
        }
        assert(self.record_header@.take(5) =~= self.record_header@);
        self.record_payload_remaining = validate_record_header(&self.record_header)?;
        Ok(Step::Next(slice_subrange(input, copied, input.len())))
    }

    /// Takes what is missing of the record and, at its end, decides whether the
    /// handshake message is complete.
    fn read_payload<'a>(&mut self, input: &'a [u8]) -> (step: Result<Step<'a>, ParseError>)
        requires
            old(self).wf(),
        ensures
            final(self).wf(),
            final(self).record_header_len == old(self).record_header_len,
            step_view(final(self).model(), step) == with_payload(old(self).model(), input@),
    {
        let consumed = if input.len() < self.record_payload_remaining {
            input.len()
        } else {
            self.record_payload_remaining
        };
        self.append_handshake(slice_subrange(input, 0, consumed));
        self.record_payload_remaining = self.record_payload_remaining - consumed;
        if self.record_payload_remaining != 0 {
            return Ok(Step::Stop(ParseProgress::NeedMore));
        }
        // A ClientHello is classified only once the record that holds its last
        // byte has arrived in full.
        if self.handshake.len() >= 4 {
            if self.handshake[0] != CLIENT_HELLO {
                return Err(ParseError::Invalid("first handshake is not ClientHello"));
            }
            let total = self.handshake_total_len.unwrap();
            if total == 4 {
                return Err(ParseError::Invalid("empty ClientHello"));
            }
            if self.handshake.len() == total {
                let sni = parse_client_hello(
                    slice_subrange(self.handshake.as_slice(), 4, total),
                )?;
                return Ok(Step::Stop(ParseProgress::Complete(Classification::Tls { sni })));
            }
        }
        Ok(Step::Next(slice_subrange(input, consumed, input.len())))
    }

    /// Appends the first `copied` bytes of the input to the record header.
    fn fill_header(&mut self, input: &[u8], copied: usize)
        requires
            old(self).wf(),
            copied <= input@.len(),
            old(self).record_header_len + copied <= 5,
        ensures
            final(self).wf(),
            final(self).record_header_len == old(self).record_header_len + copied,
            final(self).model() == (DeframerView {
                header: old(self).model().header + input@.take(copied as int),
                ..old(self).model()
            }),
    {
        let ghost before = self.model().header;
        let start = self.record_header_len;
        let mut i: usize = 0;
        while i < copied
            invariant
                i <= copied <= input@.len(),
                start == old(self).record_header_len,
                start + copied <= 5,
                self.record_header_len == start + i,
                self.wf(),
                self.record_header@.take(start + i) == before + input@.take(i as int),
                self.record_payload_remaining == old(self).record_payload_remaining,
                self.handshake == old(self).handshake,
            decreases copied - i,
        {
            let ghost filled = self.record_header@.take(start + i);
            self.record_header[start + i] = input[i];
            assert(self.record_header@.take(start + i + 1) =~= filled.push(input@[i as int]));
            assert(input@.take(i + 1) =~= input@.take(i as int).push(input@[i as int]));
            i += 1;
            self.record_header_len = start + i;
        }
    }
}

/// The length of a handshake message, its four header bytes included.
fn declared_len(handshake: &[u8]) -> (len: usize)
    requires
        handshake@.len() >= 4,
    ensures
        len == message_len(handshake@),
{
    handshake[1] as usize * 65536 + handshake[2] as usize * 256 + handshake[3] as usize + 4
}

/// The payload length that a record header declares.
fn validate_record_header(header: &[u8; 5]) -> (len: Result<usize, ParseError>)
    ensures
        match len {
            Ok(len) => record_len(header@) == Ok::<int, Seq<char>>(len as int),
            Err(error) => record_len(header@) == Err::<int, Seq<char>>(error@),
        },
{
    if header[0] != TLS_HANDSHAKE {
        return Err(ParseError::Invalid("unexpected TLS record type"));
    }
    if header[1] != 3 || header[2] < 1 || header[2] > 4 {
        return Err(ParseError::Invalid("unsupported TLS record version"));
    }
    let len = header[3] as usize * 256 + header[4] as usize;
    if len == 0 || len > MAX_RECORD_LEN {
        return Err(ParseError::Invalid("invalid TLS record length"));
    }
    Ok(len)
}

/// Whether the buffer starts with the method.
fn has_prefix(buffer: &[u8], method: &[u8]) -> (yes: bool)
    ensures
        yes == method@.is_prefix_of(buffer@),
{
    if method.len() > buffer.len() {
        return false;
    }
    let mut i: usize = 0;
    while i < method.len()
        invariant
            i <= method@.len() <= buffer@.len(),
            method@.take(i as int) == buffer@.take(i as int),
        decreases method@.len() - i,
    {
        if method[i] != buffer[i] {
            assert(buffer@.take(method@.len() as int)[i as int] != method@[i as int]);
            return false;
        }
        assert(method@.take(i + 1) =~= method@.take(i as int).push(method@[i as int]));
        assert(buffer@.take(i + 1) =~= buffer@.take(i as int).push(buffer@[i as int]));
        i += 1;
    }
    assert(method@.take(method@.len() as int) =~= method@);
    true
}

/// The nine methods as bytes.
fn method_list() -> (list: Vec<&'static [u8]>)
    ensures
        list@.len() == methods().len(),
        forall|i: int| 0 <= i < methods().len() ==> (#[trigger] list@[i])@ == methods()[i],
{
    let mut list: Vec<&'static [u8]> = Vec::new();
    list.push("GET ".as_bytes());
    list.push("HEAD ".as_bytes());
    list.push("POST ".as_bytes());
    list.push("PUT ".as_bytes());
    list.push("DELETE ".as_bytes());
    list.push("OPTIONS ".as_bytes());
    list.push("PATCH ".as_bytes());
    list.push("CONNECT ".as_bytes());
    list.push("TRACE ".as_bytes());
    list
}

/// Whether the buffer starts with a method.
pub fn looks_like_http(buffer: &[u8]) -> (yes: bool)
    ensures
        yes == starts_with_method(buffer@),
{
    let list = method_list();
    let mut i: usize = 0;
    while i < list.len()
        invariant
            i <= list@.len() == methods().len(),
            forall|j: int| 0 <= j < methods().len() ==> (#[trigger] list@[j])@ == methods()[j],
            forall|j: int| 0 <= j < i ==> !(#[trigger] methods()[j]).is_prefix_of(buffer@),
        decreases list@.len() - i,
    {
        if has_prefix(buffer, list[i]) {
            assert(methods()[i as int].is_prefix_of(buffer@));
            return true;
        }
        i += 1;
    }
    false
}

/// Whether the buffer is the start of a method.
pub fn could_be_http_prefix(buffer: &[u8]) -> (yes: bool)
    ensures
        yes == starts_a_method(buffer@),
{
    let list = method_list();
    let mut i: usize = 0;
    while i < list.len()
        invariant
            i <= list@.len() == methods().len(),
            forall|j: int| 0 <= j < methods().len() ==> (#[trigger] list@[j])@ == methods()[j],
            forall|j: int| 0 <= j < i ==> !buffer@.is_prefix_of(#[trigger] methods()[j]),
        decreases list@.len() - i,
    {
        if has_prefix(list[i], buffer) {
            assert(buffer@.is_prefix_of(methods()[i as int]));
            return true;
        }
        i += 1;
    }
    false
}

impl View for Classifier {
    type V = ClassifierView;

    closed spec fn view(&self) -> ClassifierView {
        match self.state {
            ClassifierState::DetectHttp { prefix, prefix_len } => ClassifierView::Detect(
                prefix@.take(prefix_len as int),
            ),
            ClassifierState::Tls(deframer) => ClassifierView::Framing(deframer.model()),
            ClassifierState::Complete => ClassifierView::Complete,
        }
    }
}

impl Default for Classifier {
    fn default() -> (classifier: Self)
        ensures
            classifier.wf(),
            classifier@ == ClassifierView::Detect(Seq::empty()),
    {
        Self::new()
    }
}

impl Classifier {
    /// What every operation keeps.
    pub closed spec fn wf(&self) -> bool {
        match self.state {
            ClassifierState::DetectHttp { prefix: _, prefix_len } => prefix_len <= 8,
            ClassifierState::Tls(deframer) => deframer.wf(),
            ClassifierState::Complete => true,
        }
    }

    /// A classifier before the first byte.
    pub fn new() -> (classifier: Self)
        ensures
            classifier.wf(),
            classifier@ == ClassifierView::Detect(Seq::empty()),
    {
        let classifier = Classifier {
            state: ClassifierState::DetectHttp { prefix: [0; 8], prefix_len: 0 },
        };
        assert(classifier@ =~= ClassifierView::Detect(Seq::empty()));
        classifier
    }

    /// Takes the next bytes of the stream.
    pub fn push(&mut self, input: &[u8]) -> (progress: Result<ParseProgress, ParseError>)
        requires
            old(self).wf(),
        ensures
            final(self).wf(),
            (final(self)@, outcome(progress)) == push_spec(old(self)@, input@),
    {
        match &mut self.state {
            ClassifierState::DetectHttp { prefix, prefix_len } => {
                let (prefix, prefix_len) = (*prefix, *prefix_len);
                self.detect_protocol(prefix, prefix_len, input)
            },
            ClassifierState::Tls(deframer) => {
                let progress = deframer.push(input)?;
                if matches!(progress, ParseProgress::Complete(_)) {
                    self.state = ClassifierState::Complete;
                }
                Ok(progress)
            },
            ClassifierState::Complete => Err(ParseError::Invalid("classifier already completed")),
        }
    }

    /// `push` while the protocol is not known: `prefix` and `prefix_len` are
    /// those of the state.
    fn detect_protocol(&mut self, prefix: [u8; 8], prefix_len: usize, input: &[u8]) -> (progress:
        Result<ParseProgress, ParseError>)
        requires
            old(self).wf(),
            prefix_len <= 8,
            old(self)@ == ClassifierView::Detect(prefix@.take(prefix_len as int)),
        ensures
            final(self).wf(),
            (final(self)@, outcome(progress)) == push_spec(old(self)@, input@),
    {
        if input.len() == 0 {
            return Ok(ParseProgress::NeedMore);
        }
        // A TLS record is unambiguous from its first byte, so it can enter the
        // deframer without accumulating or replaying an HTTP-sized prefix.
        if prefix_len == 0 && input[0] == TLS_HANDSHAKE {
            let mut deframer = TlsDeframer::new();
            let progress = deframer.push(input)?;
            self.state = if matches!(progress, ParseProgress::Complete(_)) {
                ClassifierState::Complete
            } else {
                ClassifierState::Tls(deframer)
            };
            return Ok(progress);
        }
        let ghost before = prefix@.take(prefix_len as int);
        let mut prefix = prefix;
        let start = prefix_len;
        let room = 8 - prefix_len;
        let copied = if input.len() < room { input.len() } else { room };
        let mut i: usize = 0;
        while i < copied
            invariant
                i <= copied <= input@.len(),
                start + copied <= 8,
                prefix@.take(start + i) == before + input@.take(i as int),
            decreases copied - i,
        {
            let ghost filled = prefix@.take(start + i);
            prefix[start + i] = input[i];
            assert(prefix@.take(start + i + 1) =~= filled.push(input@[i as int]));
            assert(input@.take(i + 1) =~= input@.take(i as int).push(input@[i as int]));
            i += 1;
        }
        let prefix_len = start + copied;
        self.state = ClassifierState::DetectHttp { prefix, prefix_len };
        let candidate = slice_subrange(&prefix, 0, prefix_len);
        if looks_like_http(candidate) {
            self.state = ClassifierState::Complete;
            return Ok(ParseProgress::Complete(Classification::PlainHttp));
        }
        if prefix_len < 8 && could_be_http_prefix(candidate) {
            return Ok(ParseProgress::NeedMore);
        }
        Err(ParseError::Invalid("neither TLS nor supported plain HTTP"))
    }

    /// Whether the stream has been classified.
    pub fn is_complete(&self) -> (complete: bool)
        ensures
            complete == (self@ is Complete),
    {
        matches!(self.state, ClassifierState::Complete)
    }
}

/// Classifies a buffer that holds a stream from its first byte on.
pub fn classify(buffer: &[u8]) -> (progress: Result<ParseProgress, ParseError>)
    ensures
        outcome(progress) == stream_outcome(buffer@),
{
    proof {
        crate::tls_laws::law_one_push(buffer@);
    }
    let mut classifier = Classifier::new();
    classifier.push(buffer)
}

} // verus!
