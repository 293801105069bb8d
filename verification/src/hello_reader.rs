//! The reading of a client's first bytes, up to the routing decision.
//!
//! The reader decides what to do next and keeps every byte, so that the bytes
//! read for the decision can be sent on to the upstream.

use vstd::prelude::*;

use crate::error::{ErrorKind, RelayError};
use crate::tls::{Classification, ClassifierView, Classifier, Outcome, ParseProgress};

verus! {

/// The most that one read asks for.
pub const READ_CHUNK: usize = 16_384;

/// The room that a reader starts with, if its limit leaves that much.
pub const INITIAL_BUFFER_CAPACITY: usize = 4096;

/// What a read came to.
pub enum ReadEvent<'a> {
    /// So many bytes were read; none at the end of the stream.
    Data(&'a [u8]),
    /// The read failed.
    Failed(ErrorKind),
    /// The time for the first bytes is over.
    TimedOut,
}

/// What to do next.
#[derive(Debug)]
pub enum ReadAction {
    /// Wait until the client is readable and read at most so many bytes.
    Read(usize),
    /// The stream is classified.
    Done(Classification),
    /// Close the connection.
    Fail(RelayError),
    /// Close the connection with the error that the read failed with.
    FailAsRead,
}

/// `ReadAction` over views.
pub enum ReadActionView {
    Read(int),
    Done(crate::tls::ClassificationView),
    Fail(ErrorKind, Seq<char>),
    FailAsRead,
}

impl View for ReadAction {
    type V = ReadActionView;

    open spec fn view(&self) -> ReadActionView {
        match self {
            ReadAction::Read(n) => ReadActionView::Read(*n as int),
            ReadAction::Done(classification) => ReadActionView::Done(classification@),
            ReadAction::Fail(error) => ReadActionView::Fail(error.kind, error.message@),
            ReadAction::FailAsRead => ReadActionView::FailAsRead,
        }
    }
}

/// What to do when so many bytes have been read and more are needed.
pub open spec fn more_action(read: int, limit: int) -> ReadActionView {
    if read >= limit {
        ReadActionView::Fail(
            ErrorKind::InvalidData,
            "ClientHello exceeds configured maximum"@,
        )
    } else {
        ReadActionView::Read(crate::tls::least(limit - read, READ_CHUNK as int))
    }
}

/// What to do when the bytes of the stream so far are these.
pub open spec fn stream_action(stream: Seq<u8>, limit: int) -> ReadActionView {
    match crate::tls::stream_outcome(stream) {
        Outcome::NeedMore => more_action(stream.len() as int, limit),
        Outcome::Complete(classification) => ReadActionView::Done(classification),
        Outcome::Invalid(message) => ReadActionView::Fail(
            ErrorKind::InvalidData,
            "invalid TLS ClientHello: "@ + message,
        ),
    }
}

/// Reads the first bytes of a client.
pub struct HelloReader {
    buffer: Vec<u8>,
    classifier: Classifier,
    limit: usize,
}

impl HelloReader {
    /// The bytes read so far.
    pub closed spec fn stream(&self) -> Seq<u8> {
        self.buffer@
    }

    /// The most bytes that are read.
    pub closed spec fn limit(&self) -> int {
        self.limit as int
    }

    /// What holds between two reads: the bytes so far do not decide.
    pub closed spec fn wf(&self) -> bool {
        &&& self.classifier.wf()
        &&& crate::tls::push_spec(ClassifierView::Detect(Seq::empty()), self.buffer@) == (
            self.classifier@,
            Outcome::NeedMore,
        )
    }

    /// A reader that has read nothing.
    pub fn new(max_bytes: usize) -> (reader: Self)
        ensures
            reader.wf(),
            reader.stream() == Seq::<u8>::empty(),
            reader.limit() == max_bytes,
    {
        let capacity = if INITIAL_BUFFER_CAPACITY < max_bytes {
            INITIAL_BUFFER_CAPACITY
        } else {
            max_bytes
        };
        HelloReader {
            buffer: Vec::with_capacity(capacity),
            classifier: Classifier::new(),
            limit: max_bytes,
        }
    }

    /// What to do before the first read, or after one that brought nothing.
    pub fn next(&self) -> (action: ReadAction)
        requires
            self.wf(),
        ensures
            action@ == more_action(self.stream().len() as int, self.limit()),
    {
        if self.buffer.len() >= self.limit {
            return ReadAction::Fail(
                RelayError::new(
                    ErrorKind::InvalidData,
                    "ClientHello exceeds configured maximum",
                ),
            );
        }
        let remaining = self.limit - self.buffer.len();
        ReadAction::Read(if remaining < READ_CHUNK { remaining } else { READ_CHUNK })
    }

    /// What to do after a read.
    pub fn on_read(&mut self, event: ReadEvent<'_>) -> (action: ReadAction)
        requires
            old(self).wf(),
        ensures
            final(self).limit() == old(self).limit(),
            match event {
                ReadEvent::Data(data) => {
                    &&& final(self).stream() == old(self).stream() + data@
                    &&& action@ == if data@.len() == 0 {
                        ReadActionView::Fail(
                            ErrorKind::UnexpectedEof,
                            "client closed before routing decision"@,
                        )
                    } else {
                        stream_action(old(self).stream() + data@, old(self).limit())
                    }
                },
                ReadEvent::Failed(kind) => {
                    &&& final(self).stream() == old(self).stream()
                    &&& action@ == if kind == ErrorKind::WouldBlock {
                        more_action(old(self).stream().len() as int, old(self).limit())
                    } else {
                        ReadActionView::FailAsRead
                    }
                },
                ReadEvent::TimedOut => {
                    &&& final(self).stream() == old(self).stream()
                    &&& action@ == ReadActionView::Fail(
                        ErrorKind::TimedOut,
                        "ClientHello timeout"@,
                    )
                },
            },
            action is Read ==> final(self).wf(),
            event matches ReadEvent::Data(data) ==> (data@.len() > 0 ==> match
                crate::tls::stream_outcome(old(self).stream() + data@) {
                Outcome::Complete(crate::tls::ClassificationView::PlainHttp) => action matches
                    ReadAction::Done(Classification::PlainHttp),
                Outcome::Complete(crate::tls::ClassificationView::Tls { sni: None }) => action
                    matches ReadAction::Done(Classification::Tls { sni: None }),
                Outcome::Complete(crate::tls::ClassificationView::Tls { sni: Some(name) }) => action
                    matches ReadAction::Done(Classification::Tls { sni: Some(asked) }) && asked@
                    == name,
                Outcome::NeedMore => !(action is Done),
                Outcome::Invalid(_) => action is Fail,
            }),
    {
        match event {
            ReadEvent::TimedOut => ReadAction::Fail(
                RelayError::new(ErrorKind::TimedOut, "ClientHello timeout"),
            ),
            ReadEvent::Failed(kind) => {
                if kind == ErrorKind::WouldBlock {
                    self.next()
                } else {
                    ReadAction::FailAsRead
                }
            },
            ReadEvent::Data(data) => {
                let ghost before = self.buffer@;
                self.buffer.extend_from_slice(data);
                assert(self.buffer@ =~= before + data@);
                if data.len() == 0 {
                    return ReadAction::Fail(
                        RelayError::new(
                            ErrorKind::UnexpectedEof,
                            "client closed before routing decision",
                        ),
                    );
                }
                proof {
                    crate::tls_laws::law_next_piece(self.classifier@, before, data@);
                }
                match self.classifier.push(data) {
                    Ok(ParseProgress::Complete(classification)) => ReadAction::Done(
                        classification,
                    ),
                    Ok(ParseProgress::NeedMore) => self.next(),
                    Err(error) => ReadAction::Fail(
                        RelayError { kind: ErrorKind::InvalidData, message: error.message() },
                    ),
                }
            },
        }
    }

    /// The bytes that were read, to be sent on.
    pub fn into_bytes(self) -> (bytes: Vec<u8>)
        ensures
            bytes@ == self.stream(),
    {
        self.buffer
    }
}

/// A reader that is told to read never exceeds its limit: what it asks for fits
/// in what is left.
pub proof fn law_reads_fit(stream: Seq<u8>, limit: int)
    ensures
        stream_action(stream, limit) matches ReadActionView::Read(n) ==> 1 <= n <= READ_CHUNK
            && stream.len() + n <= limit,
{
}

/// A reader answers with what the bytes read so far are, unchanged: as soon as
/// they are classified that is its answer, and as soon as they are refused the
/// connection is closed with the reason. Until then it reads on, up to its limit
/// and no further.
pub proof fn law_reader_answers_what_the_stream_is(stream: Seq<u8>, limit: int)
    ensures
        crate::tls::stream_outcome(stream) matches Outcome::Complete(classification)
            ==> stream_action(stream, limit) == ReadActionView::Done(classification),
        crate::tls::stream_outcome(stream) matches Outcome::Invalid(message) ==> stream_action(
            stream,
            limit,
        ) == ReadActionView::Fail(
            ErrorKind::InvalidData,
            "invalid TLS ClientHello: "@ + message,
        ),
        crate::tls::stream_outcome(stream) is NeedMore ==> stream_action(stream, limit)
            == more_action(stream.len() as int, limit),
        !(crate::tls::stream_outcome(stream) is Complete) ==> !(stream_action(stream, limit)
            is Done),
{
}

/// While a reader needs more it asks for all that its limit leaves, but for no
/// more than 16384 bytes at once; at its limit it gives up.
pub proof fn law_reader_asks_within_its_limit(read: int, limit: int)
    ensures
        read >= limit ==> more_action(read, limit) == ReadActionView::Fail(
            ErrorKind::InvalidData,
            "ClientHello exceeds configured maximum"@,
        ),
        read < limit && limit - read <= 16_384 ==> more_action(read, limit)
            == ReadActionView::Read(limit - read),
        limit - read > 16_384 ==> more_action(read, limit) == ReadActionView::Read(16_384),
{
}

/// A reader that is given the records of a ClientHello answers with the host
/// that the client asks for, and with no host where it asks for none.
pub proof fn law_reader_tells_the_server_name(
    hello: crate::hello_laws::Hello,
    k: int,
    names: Seq<(u8, Seq<u8>)>,
    m: int,
    name: Seq<char>,
    n: nat,
    lower: Seq<char>,
    records: Seq<(u8, Seq<u8>)>,
    more: Seq<u8>,
    limit: int,
)
    requires
        hello.well_formed(),
        crate::stream_laws::in_records(crate::stream_laws::hello_message(hello), records),
        crate::hostname_laws::spelled(name),
        name.len() + n <= 253,
        crate::hostname_laws::is_small_of(lower, name),
    ensures
        crate::stream_laws::asks_for(hello, k, names, m, name + crate::hostname_laws::dots(n))
            ==> stream_action(crate::hello_laws::records_wire(records) + more, limit)
            == ReadActionView::Done(crate::tls::ClassificationView::Tls { sni: Some(lower) }),
        crate::stream_laws::asks_for_none(hello) ==> stream_action(
            crate::hello_laws::records_wire(records) + more,
            limit,
        ) == ReadActionView::Done(crate::tls::ClassificationView::Tls { sni: None }),
{
    if crate::stream_laws::asks_for(hello, k, names, m, name + crate::hostname_laws::dots(n)) {
        crate::stream_laws::law_stream_tells_its_server_name(
            hello,
            k,
            names,
            m,
            name,
            n,
            lower,
            records,
            more,
        );
    }
    if crate::stream_laws::asks_for_none(hello) {
        crate::stream_laws::law_stream_tells_no_server_name(hello, records, more);
    }
}

/// A reader that is given a request answers that it is plain HTTP.
pub proof fn law_reader_tells_plain_http(method: Seq<u8>, rest: Seq<u8>, limit: int)
    requires
        crate::stream_laws::http_method(method),
    ensures
        stream_action(method + rest, limit) == ReadActionView::Done(
            crate::tls::ClassificationView::PlainHttp,
        ),
{
    assert(method.len() > 0) by {
        crate::stream_laws::lemma_one_blank(method);
    }
    crate::stream_laws::law_requests_are_plain_http(method, rest, 0);
}

/// A reader that has a part of a ClientHello reads on until the record with its
/// last byte is there, as far as its limit allows.
pub proof fn law_reader_waits_for_the_last_record(
    hello: crate::hello_laws::Hello,
    records: Seq<(u8, Seq<u8>)>,
    n: int,
    limit: int,
)
    requires
        hello.well_formed(),
        records.len() > 0,
        crate::stream_laws::in_records(crate::stream_laws::hello_message(hello), records),
        crate::hello_laws::payloads(records.drop_last()).len() < crate::stream_laws::hello_message(
            hello,
        ).len(),
        0 <= n < crate::hello_laws::records_wire(records).len(),
        n < limit,
    ensures
        stream_action(crate::hello_laws::records_wire(records).take(n), limit) is Read,
{
    crate::stream_laws::law_undecided_before_the_last_record(hello, records, n);
}

/// What a reader is to do is seen as what it is.
pub proof fn law_read_actions_are_seen(action: ReadAction)
    ensures
        match action {
            ReadAction::Read(n) => action@ == ReadActionView::Read(n as int),
            ReadAction::Done(classification) => action@ == ReadActionView::Done(classification@),
            ReadAction::Fail(error) => action@ == ReadActionView::Fail(error.kind, error.message@),
            ReadAction::FailAsRead => action@ == ReadActionView::FailAsRead,
        },
{
}

} // verus!
