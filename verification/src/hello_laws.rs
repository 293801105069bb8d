//! What the parser reads of a ClientHello is what was written into it.
//!
//! `Hello` is a ClientHello by its parts and `Hello::wire` is how the parts
//! are written. The laws say that the server name comes back out, however the
//! message is then cut into records.

use vstd::prelude::*;

use crate::tls::{ClassificationView, Outcome};

verus! {

/// A number below 65536 as two bytes, the high one first.
pub open spec fn number16(n: int) -> Seq<u8> {
    seq![(n / 256) as u8, (n % 256) as u8]
}

/// Bytes, at most 255 of them, behind their number.
pub open spec fn field8(bytes: Seq<u8>) -> Seq<u8> {
    seq![bytes.len() as u8] + bytes
}

/// Bytes, at most 65535 of them, behind their number.
pub open spec fn field16(bytes: Seq<u8>) -> Seq<u8> {
    number16(bytes.len() as int) + bytes
}

/// Extensions by type and payload, one behind the other.
pub open spec fn extensions_wire(list: Seq<(u16, Seq<u8>)>) -> Seq<u8>
    decreases list.len(),
{
    if list.len() == 0 {
        Seq::empty()
    } else {
        number16(list.first().0 as int) + field16(list.first().1) + extensions_wire(
            list.drop_first(),
        )
    }
}

/// Server names by type and value, one behind the other.
pub open spec fn names_wire(list: Seq<(u8, Seq<u8>)>) -> Seq<u8>
    decreases list.len(),
{
    if list.len() == 0 {
        Seq::empty()
    } else {
        seq![list.first().0] + field16(list.first().1) + names_wire(list.drop_first())
    }
}

/// A ClientHello by its parts.
pub struct Hello {
    /// Version and random.
    pub opening: Seq<u8>,
    pub session: Seq<u8>,
    pub suites: Seq<u8>,
    pub compression: Seq<u8>,
    pub extensions: Option<Seq<(u16, Seq<u8>)>>,
}

impl Hello {
    /// Each part fits where it is written, and the lists that must not be
    /// empty are not.
    pub open spec fn well_formed(self) -> bool {
        &&& self.opening.len() == 34
        &&& self.session.len() <= 255
        &&& 2 <= self.suites.len() <= 65535
        &&& self.suites.len() % 2 == 0
        &&& 1 <= self.compression.len() <= 255
        &&& self.extensions matches Some(list) ==> extensions_wire(list).len() <= 65535
    }

    /// The parts up to the extensions.
    pub open spec fn front(self) -> Seq<u8> {
        self.opening + field8(self.session) + field16(self.suites) + field8(self.compression)
    }

    /// The ClientHello as bytes.
    pub open spec fn wire(self) -> Seq<u8> {
        match self.extensions {
            None => self.front(),
            Some(list) => self.front() + field16(extensions_wire(list)),
        }
    }

    /// The server name that the ClientHello asks for.
    pub open spec fn sni(self) -> Result<Option<Seq<char>>, Seq<char>> {
        match self.extensions {
            None => Ok(None),
            Some(list) => listed_sni(list),
        }
    }
}

/// What the first server name extension of a list says.
pub open spec fn listed_sni(list: Seq<(u16, Seq<u8>)>) -> Result<Option<Seq<char>>, Seq<char>>
    decreases list.len(),
{
    if list.len() == 0 {
        Ok(None)
    } else if list.first().0 == crate::client_hello::SERVER_NAME_EXTENSION {
        crate::client_hello::name_list_sni(list.first().1)
    } else {
        listed_sni(list.drop_first())
    }
}

/// The first host name of a list.
pub open spec fn listed_host(list: Seq<(u8, Seq<u8>)>) -> Result<Option<Seq<char>>, Seq<char>>
    decreases list.len(),
{
    if list.len() == 0 {
        Ok(None)
    } else if list.first().0 == 0 {
        crate::client_hello::host_name_sni(list.first().1)
    } else {
        listed_host(list.drop_first())
    }
}

/// A number that was written is read back.
proof fn lemma_number16(n: int, bytes: Seq<u8>, at: int)
    requires
        0 <= n <= 65535,
        0 <= at,
        at + 2 <= bytes.len(),
        bytes.subrange(at, at + 2) == number16(n),
    ensures
        crate::client_hello::be16(bytes, at) == n,
{
    assert(bytes[at] == number16(n)[0]) by {
        assert(bytes.subrange(at, at + 2)[0] == bytes[at]);
    }
    assert(bytes[at + 1] == number16(n)[1]) by {
        assert(bytes.subrange(at, at + 2)[1] == bytes[at + 1]);
    }
}

proof fn lemma_extensions(head: Seq<u8>, list: Seq<(u16, Seq<u8>)>)
    requires
        head.len() + extensions_wire(list).len() <= 65535,
    ensures
        crate::client_hello::extensions_sni(head + extensions_wire(list), head.len() as int)
            == listed_sni(list),
    decreases list.len(),
{
    let whole = head + extensions_wire(list);
    let at = head.len() as int;
    if list.len() > 0 {
        let (kind, payload) = list.first();
        let rest = list.drop_first();
        let end = at + 4 + payload.len();
        let next = head + (number16(kind as int) + field16(payload));
        assert(whole =~= next + extensions_wire(rest));
        assert(whole.subrange(at, at + 2) =~= number16(kind as int));
        assert(whole.subrange(at + 2, at + 4) =~= number16(payload.len() as int));
        assert(whole.subrange(at + 4, end) =~= payload);
        lemma_number16(kind as int, whole, at);
        lemma_number16(payload.len() as int, whole, at + 2);
        lemma_extensions(next, rest);
    }
}

proof fn lemma_names(head: Seq<u8>, list: Seq<(u8, Seq<u8>)>)
    requires
        head.len() + names_wire(list).len() <= 65535,
    ensures
        crate::client_hello::names_sni(head + names_wire(list), head.len() as int) == listed_host(
            list,
        ),
    decreases list.len(),
{
    let whole = head + names_wire(list);
    let at = head.len() as int;
    if list.len() > 0 {
        let (kind, name) = list.first();
        let rest = list.drop_first();
        let end = at + 3 + name.len();
        let next = head + (seq![kind] + field16(name));
        assert(whole =~= next + names_wire(rest));
        assert(whole[at] == kind);
        assert(whole.subrange(at + 1, at + 3) =~= number16(name.len() as int));
        assert(whole.subrange(at + 3, end) =~= name);
        lemma_number16(name.len() as int, whole, at + 1);
        lemma_names(next, rest);
    }
}

/// A list of server names that was written into an extension yields its first
/// host name.
pub proof fn law_written_names_are_read(list: Seq<(u8, Seq<u8>)>)
    requires
        names_wire(list).len() <= 65535,
    ensures
        crate::client_hello::name_list_sni(field16(names_wire(list))) == listed_host(list),
{
    let names = names_wire(list);
    let extension = field16(names);
    assert(extension.subrange(0, 2) =~= number16(names.len() as int));
    assert(extension.subrange(2, extension.len() as int) =~= names);
    lemma_number16(names.len() as int, extension, 0);
    lemma_names(Seq::empty(), list);
    assert(Seq::<u8>::empty() + names =~= names);
}

proof fn lemma_extension_block(front: Seq<u8>, list: Seq<(u16, Seq<u8>)>)
    requires
        front.len() <= 0x2_0000,
        extensions_wire(list).len() <= 65535,
    ensures
        crate::client_hello::extension_block(
            front + field16(extensions_wire(list)),
            front.len() as int,
        ) == listed_sni(list),
{
    let block = extensions_wire(list);
    let whole = front + field16(block);
    let at = front.len() as int;
    assert(whole.subrange(at, at + 2) =~= number16(block.len() as int));
    assert(whole.subrange(at + 2, whole.len() as int) =~= block);
    lemma_number16(block.len() as int, whole, at);
    lemma_extensions(Seq::empty(), list);
    assert(Seq::<u8>::empty() + block =~= block);
}

/// A ClientHello that was written is read: what it asks for comes back out.
pub proof fn law_written_hello_is_read(hello: Hello)
    requires
        hello.well_formed(),
    ensures
        crate::client_hello::hello_sni(hello.wire()) == hello.sni(),
{
    let wire = hello.wire();
    let front = hello.front();
    let suites_at = 35 + hello.session.len() as int;
    let compression_at = suites_at + 2 + hello.suites.len();
    assert(front.len() == compression_at + 1 + hello.compression.len());
    assert(wire.take(front.len() as int) =~= front);
    assert(wire[34] == hello.session.len()) by {
        assert(front[34] == field8(hello.session)[0]);
    }
    assert(wire.subrange(suites_at, suites_at + 2) =~= number16(hello.suites.len() as int));
    lemma_number16(hello.suites.len() as int, wire, suites_at);
    assert(wire[compression_at] == hello.compression.len()) by {
        assert(front[compression_at] == field8(hello.compression)[0]);
    }
    if let Some(list) = hello.extensions {
        lemma_extension_block(front, list);
    }
}

/// A handshake message: its type, its length as three bytes, and its body.
pub open spec fn message_wire(kind: u8, body: Seq<u8>) -> Seq<u8> {
    seq![
        kind,
        (body.len() / 65536) as u8,
        (body.len() / 256 % 256) as u8,
        (body.len() % 256) as u8,
    ] + body
}

/// A record: its type, its version, and its payload behind its length.
pub open spec fn record_wire(minor: u8, payload: Seq<u8>) -> Seq<u8> {
    seq![crate::tls::TLS_HANDSHAKE, 3u8, minor] + field16(payload)
}

/// A payload that a record can hold, under a version that is known.
pub open spec fn fits_record(minor: u8, payload: Seq<u8>) -> bool {
    1 <= minor <= 4 && 1 <= payload.len() <= crate::tls::MAX_RECORD_LEN
}

/// Records by version and payload, one behind the other.
pub open spec fn records_wire(list: Seq<(u8, Seq<u8>)>) -> Seq<u8>
    decreases list.len(),
{
    if list.len() == 0 {
        Seq::empty()
    } else {
        record_wire(list.first().0, list.first().1) + records_wire(list.drop_first())
    }
}

/// The payloads of records, put together.
pub open spec fn payloads(list: Seq<(u8, Seq<u8>)>) -> Seq<u8>
    decreases list.len(),
{
    if list.len() == 0 {
        Seq::empty()
    } else {
        list.first().1 + payloads(list.drop_first())
    }
}

/// What a stream is whose ClientHello says so of its server name.
pub open spec fn hello_outcome(sni: Result<Option<Seq<char>>, Seq<char>>) -> Outcome {
    match sni {
        Ok(sni) => Outcome::Complete(ClassificationView::Tls { sni }),
        Err(message) => Outcome::Invalid(message),
    }
}

proof fn lemma_message_len(body: Seq<u8>)
    requires
        body.len() <= 0xff_ffff,
    ensures
        crate::tls::message_len(message_wire(crate::tls::CLIENT_HELLO, body)) == body.len() + 4,
{
    let message = message_wire(crate::tls::CLIENT_HELLO, body);
    assert(message[1] == body.len() / 65536);
    assert(message[2] == body.len() / 256 % 256);
    assert(message[3] == body.len() % 256);
}

/// A ClientHello message is decided by itself: bytes behind it play no part.
proof fn lemma_message(body: Seq<u8>, handshake: Seq<u8>)
    requires
        1 <= body.len() <= 0xff_ffff,
        message_wire(crate::tls::CLIENT_HELLO, body).is_prefix_of(handshake),
    ensures
        crate::tls::handshake_outcome(handshake) == hello_outcome(
            crate::client_hello::hello_sni(body),
        ),
{
    let message = message_wire(crate::tls::CLIENT_HELLO, body);
    lemma_message_len(body);
    assert(forall|i: int| 0 <= i < message.len() ==> #[trigger] handshake[i] == message[i]);
    assert(crate::tls::message_len(handshake) == body.len() + 4);
    assert(handshake.subrange(4, body.len() as int + 4) =~= body);
}

/// It is not decided before its last byte.
pub proof fn lemma_prefix_undecided(body: Seq<u8>, before: Seq<u8>)
    requires
        1 <= body.len() <= 0xff_ffff,
        before.is_prefix_of(message_wire(crate::tls::CLIENT_HELLO, body)),
        before.len() < body.len() + 4,
    ensures
        crate::tls::handshake_outcome(before) is NeedMore,
{
    lemma_message_len(body);
    let message = message_wire(crate::tls::CLIENT_HELLO, body);
    assert(forall|i: int| 0 <= i < before.len() ==> #[trigger] before[i] == message[i]);
}

/// The first record of a stream of them.
pub proof fn lemma_first_record(list: Seq<(u8, Seq<u8>)>)
    requires
        list.len() > 0,
        fits_record(list[0].0, list[0].1),
    ensures
        records_wire(list).len() >= 5 + list[0].1.len(),
        crate::tls::record_len(records_wire(list).take(5)) == Ok::<int, Seq<char>>(
            list[0].1.len() as int,
        ),
        records_wire(list).subrange(5, 5 + list[0].1.len() as int) == list[0].1,
        records_wire(list).skip(5 + list[0].1.len() as int) == records_wire(list.drop_first()),
{
    let (minor, payload) = list[0];
    let stream = records_wire(list);
    let header = stream.take(5);
    let len = payload.len() as int;
    assert(header =~= seq![crate::tls::TLS_HANDSHAKE, 3u8, minor] + number16(len));
    assert(header.subrange(3, 5) =~= number16(len));
    lemma_number16(len, header, 3);
    assert(stream.subrange(5, 5 + len) =~= payload);
    assert(stream.skip(5 + len) =~= records_wire(list.drop_first()));
}

proof fn lemma_records(body: Seq<u8>, before: Seq<u8>, list: Seq<(u8, Seq<u8>)>)
    requires
        1 <= body.len() <= 0xff_ffff,
        before.len() < body.len() + 4,
        message_wire(crate::tls::CLIENT_HELLO, body).is_prefix_of(before + payloads(list)),
        forall|i: int| 0 <= i < list.len() ==> fits_record((#[trigger] list[i]).0, list[i].1),
    ensures
        crate::tls::records_outcome(before, records_wire(list)) == hello_outcome(
            crate::client_hello::hello_sni(body),
        ),
    decreases list.len(),
{
    let message = message_wire(crate::tls::CLIENT_HELLO, body);
    let whole = before + payloads(list);
    assert(list.len() > 0);
    let payload = list[0].1;
    let rest = list.drop_first();
    let after = before + payload;
    lemma_first_record(list);
    assert(after + payloads(rest) =~= whole);
    assert(after =~= whole.subrange(0, after.len() as int));
    if after.len() >= message.len() {
        assert(message =~= after.subrange(0, message.len() as int));
        lemma_message(body, after);
    } else {
        assert(after =~= message.subrange(0, after.len() as int));
        lemma_prefix_undecided(body, after);
        assert forall|i: int| 0 <= i < rest.len() implies fits_record(
            (#[trigger] rest[i]).0,
            rest[i].1,
        ) by {
            assert(rest[i] == list[i + 1]);
        }
        lemma_records(body, after, rest);
    }
}

/// A ClientHello that was written is read however its message is cut into
/// records, and whatever follows it in the last of them or behind: a stream of
/// such records is TLS that asks for the server name.
pub proof fn law_cut_hello_is_read(hello: Hello, list: Seq<(u8, Seq<u8>)>)
    requires
        hello.well_formed(),
        message_wire(crate::tls::CLIENT_HELLO, hello.wire()).is_prefix_of(payloads(list)),
        forall|i: int| 0 <= i < list.len() ==> fits_record((#[trigger] list[i]).0, list[i].1),
    ensures
        crate::tls::stream_outcome(records_wire(list)) == hello_outcome(hello.sni()),
{
    law_written_hello_is_read(hello);
    lemma_hello_len(hello);
    lemma_stream(hello.wire(), list);
}

pub proof fn lemma_hello_len(hello: Hello)
    requires
        hello.well_formed(),
    ensures
        1 <= hello.wire().len() <= 0xff_ffff,
{
}

proof fn lemma_stream(body: Seq<u8>, list: Seq<(u8, Seq<u8>)>)
    requires
        1 <= body.len() <= 0xff_ffff,
        message_wire(crate::tls::CLIENT_HELLO, body).is_prefix_of(payloads(list)),
        forall|i: int| 0 <= i < list.len() ==> fits_record((#[trigger] list[i]).0, list[i].1),
    ensures
        crate::tls::stream_outcome(records_wire(list)) == hello_outcome(
            crate::client_hello::hello_sni(body),
        ),
{
    assert(list.len() > 0);
    assert(Seq::<u8>::empty() + payloads(list) =~= payloads(list));
    lemma_records(body, Seq::empty(), list);
    assert(records_wire(list)[0] == crate::tls::TLS_HANDSHAKE);
}

} // verus!
