//! What holds of the classifier over more than one push.

use vstd::prelude::*;
use vstd::string::StringSliceAdditionalSpecFns;

use crate::tls::{ClassificationView, ClassifierView, DeframerView, Outcome};

verus! {

proof fn lemma_retained_append(a: Seq<u8>, b: Seq<u8>)
    ensures
        crate::tls::retained(crate::tls::retained(a) + b) == crate::tls::retained(a + b),
{
    let whole = a + b;
    let kept = crate::tls::retained(a);
    if a.len() >= 4 && a.len() > crate::tls::message_len(a) {
        let len = crate::tls::message_len(a);
        assert(len >= 4);
        assert(crate::tls::message_len(whole) == len);
        assert(crate::tls::message_len(kept + b) == len);
        assert(crate::tls::retained(kept + b) =~= kept);
        assert(crate::tls::retained(whole) =~= kept);
    }
}

proof fn lemma_retained_outcome(handshake: Seq<u8>)
    ensures
        crate::tls::handshake_outcome(crate::tls::retained(handshake))
            == crate::tls::handshake_outcome(handshake),
{
    let kept = crate::tls::retained(handshake);
    if handshake.len() >= 4 && handshake.len() > crate::tls::message_len(handshake) {
        let len = crate::tls::message_len(handshake);
        assert(crate::tls::message_len(kept) == len);
        assert(kept.subrange(4, len) =~= handshake.subrange(4, len));
    }
}

/// A deframer that was given a part of its input and wants more goes on as if
/// it had been given all at once.
pub proof fn law_deframe_split(d: DeframerView, a: Seq<u8>, b: Seq<u8>)
    requires
        crate::tls::deframe(d, a).1 is NeedMore,
    ensures
        crate::tls::deframe(d, a + b) == crate::tls::deframe(crate::tls::deframe(d, a).0, b),
    decreases a.len(), d.header.len(),
{
    let whole = a + b;
    if a.len() == 0 {
        assert(whole =~= b);
    } else if b.len() == 0 {
        assert(whole =~= a);
    } else {
        lemma_header_split(d, a, b);
        match crate::tls::with_header(d, a) {
            Err(stop) => {},
            Ok((headed, payload)) => {
                lemma_payload_split(headed, payload, b);
                match crate::tls::with_payload(headed, payload) {
                    Err(stop) => {
                        assert(headed.header.len() >= 5);
                        assert(stop.0.header.len() >= 5);
                    },
                    Ok((ended, rest)) => {
                        law_deframe_split(
                            (DeframerView { header: Seq::empty(), ..ended }),
                            rest,
                            b,
                        );
                    },
                }
            },
        }
    }
}

proof fn lemma_header_split(d: DeframerView, a: Seq<u8>, b: Seq<u8>)
    ensures
        match crate::tls::with_header(d, a) {
            Ok((headed, payload)) => crate::tls::with_header(d, a + b) == Ok::<
                (DeframerView, Seq<u8>),
                (DeframerView, Outcome),
            >((headed, payload + b)),
            Err((stopped, Outcome::NeedMore)) => crate::tls::with_header(d, a + b)
                == crate::tls::with_header(stopped, b),
            Err(stop) => crate::tls::with_header(d, a + b) == Err::<
                (DeframerView, Seq<u8>),
                (DeframerView, Outcome),
            >(stop),
        },
{
    let whole = a + b;
    if d.header.len() < 5 {
        let copied = crate::tls::least(a.len() as int, 5 - d.header.len());
        let header = d.header + a.take(copied);
        if header.len() < 5 {
            let all = crate::tls::least(whole.len() as int, 5 - d.header.len());
            let more = crate::tls::least(b.len() as int, 5 - header.len());
            assert(all == copied + more);
            assert(header + b.take(more) =~= d.header + whole.take(all));
            assert(whole.skip(all) =~= b.skip(more));
        } else {
            assert(whole.take(copied) =~= a.take(copied));
            assert(whole.skip(copied) =~= a.skip(copied) + b);
        }
    }
}

proof fn lemma_payload_split(d: DeframerView, a: Seq<u8>, b: Seq<u8>)
    ensures
        match crate::tls::with_payload(d, a) {
            Ok((ended, rest)) => crate::tls::with_payload(d, a + b) == Ok::<
                (DeframerView, Seq<u8>),
                (DeframerView, Outcome),
            >((ended, rest + b)),
            Err((stopped, Outcome::NeedMore)) => {
                &&& stopped.header == d.header
                &&& crate::tls::with_payload(d, a + b) == crate::tls::with_payload(stopped, b)
            },
            Err(stop) => crate::tls::with_payload(d, a + b) == Err::<
                (DeframerView, Seq<u8>),
                (DeframerView, Outcome),
            >(stop),
        },
{
    if d.remaining > a.len() {
        lemma_payload_short(d, a, b);
    } else {
        let whole = a + b;
        let consumed = d.remaining as int;
        assert(whole.take(consumed) =~= a.take(consumed));
        assert(whole.skip(consumed) =~= a.skip(consumed) + b);
    }
}

/// Of two pieces, `n` bytes in all, past the end of the first.
proof fn lemma_take_past(head: Seq<u8>, a: Seq<u8>, b: Seq<u8>, n: int)
    requires
        a.len() <= n <= a.len() + b.len(),
    ensures
        head + (a + b).take(n) == (head + a) + b.take(n - a.len()),
        (a + b).skip(n) == b.skip(n - a.len()),
{
    assert(head + (a + b).take(n) =~= (head + a) + b.take(n - a.len()));
    assert((a + b).skip(n) =~= b.skip(n - a.len()));
}

proof fn lemma_payload_short(d: DeframerView, a: Seq<u8>, b: Seq<u8>)
    requires
        d.remaining > a.len(),
    ensures
        crate::tls::with_payload(d, a) matches Err((stopped, out)) && out is NeedMore
            && stopped.header == d.header && crate::tls::with_payload(d, a + b)
            == crate::tls::with_payload(stopped, b),
{
    let whole = a + b;
    let stopped = DeframerView {
        remaining: (d.remaining - a.len()) as nat,
        handshake: crate::tls::retained(d.handshake + a),
        ..d
    };
    assert(crate::tls::with_payload(d, a) == Err::<(DeframerView, Seq<u8>), _>(
        (stopped, Outcome::NeedMore),
    )) by {
        assert(a.take(a.len() as int) =~= a);
    }
    let all = crate::tls::least(whole.len() as int, d.remaining as int);
    let more = all - a.len();
    let next = DeframerView {
        remaining: (d.remaining - all) as nat,
        handshake: crate::tls::retained(d.handshake + whole.take(all)),
        ..d
    };
    lemma_take_past(d.handshake, a, b, all);
    lemma_retained_append(d.handshake + a, b.take(more));
    assert(crate::tls::with_payload(d, whole) == crate::tls::at_record_end(next, whole.skip(all)));
    assert(crate::tls::with_payload(stopped, b) == crate::tls::at_record_end(next, b.skip(more)));
}

/// A fresh deframer answers what `records_outcome` says of the stream.
proof fn lemma_deframe_records(d: DeframerView, handshake: Seq<u8>, stream: Seq<u8>)
    requires
        d.header.len() == 0,
        d.handshake == crate::tls::retained(handshake),
    ensures
        crate::tls::deframe(d, stream).1 == crate::tls::records_outcome(handshake, stream),
    decreases stream.len(),
{
    if stream.len() >= 5 {
        let header = d.header + stream.take(5);
        assert(header =~= stream.take(5));
        match crate::tls::record_len(header) {
            Err(_) => {},
            Ok(len) => {
                let headed = DeframerView { header, remaining: len as nat, ..d };
                let payload = stream.skip(5);
                let consumed = crate::tls::least(payload.len() as int, len);
                assert(crate::tls::with_header(d, stream) == Ok::<_, (DeframerView, Outcome)>(
                    (headed, payload),
                ));
                if payload.len() >= len {
                    assert(payload.take(len) =~= stream.subrange(5, 5 + len));
                    let more = handshake + payload.take(len);
                    lemma_retained_append(handshake, payload.take(len));
                    lemma_retained_outcome(more);
                    assert(payload.skip(len) =~= stream.skip(5 + len));
                    if crate::tls::handshake_outcome(more) is NeedMore {
                        lemma_deframe_records(
                            (DeframerView {
                                header: Seq::empty(),
                                remaining: 0,
                                handshake: crate::tls::retained(more),
                            }),
                            more,
                            stream.skip(5 + len),
                        );
                    }
                }
            },
        }
    } else if stream.len() > 0 {
        assert(d.header + stream.take(stream.len() as int) =~= stream);
    }
}

pub proof fn lemma_method_len(i: int)
    requires
        0 <= i < crate::tls::methods().len(),
    ensures
        4 <= crate::tls::methods()[i].len() <= 8,
{
    reveal_strlit("GET ");
    reveal_strlit("HEAD ");
    reveal_strlit("POST ");
    reveal_strlit("PUT ");
    reveal_strlit("DELETE ");
    reveal_strlit("OPTIONS ");
    reveal_strlit("PATCH ");
    reveal_strlit("CONNECT ");
    reveal_strlit("TRACE ");
    vstd::utf8::is_ascii_chars_encode_utf8("GET "@);
    vstd::utf8::is_ascii_chars_encode_utf8("HEAD "@);
    vstd::utf8::is_ascii_chars_encode_utf8("POST "@);
    vstd::utf8::is_ascii_chars_encode_utf8("PUT "@);
    vstd::utf8::is_ascii_chars_encode_utf8("DELETE "@);
    vstd::utf8::is_ascii_chars_encode_utf8("OPTIONS "@);
    vstd::utf8::is_ascii_chars_encode_utf8("PATCH "@);
    vstd::utf8::is_ascii_chars_encode_utf8("CONNECT "@);
    vstd::utf8::is_ascii_chars_encode_utf8("TRACE "@);
}

/// Whether a stream starts with a method is settled by its first eight bytes.
proof fn lemma_method_within(stream: Seq<u8>, head: Seq<u8>)
    requires
        head.is_prefix_of(stream),
        head.len() >= 8 || head == stream,
    ensures
        crate::tls::starts_with_method(stream) == crate::tls::starts_with_method(head),
{
    if crate::tls::starts_with_method(stream) {
        let i = choose|i: int|
            0 <= i < crate::tls::methods().len() && (
            #[trigger] crate::tls::methods()[i]).is_prefix_of(stream);
        lemma_method_len(i);
        let m = crate::tls::methods()[i];
        assert(m =~= head.subrange(0, m.len() as int));
        assert(m.is_prefix_of(head));
    }
    if crate::tls::starts_with_method(head) {
        let i = choose|i: int|
            0 <= i < crate::tls::methods().len() && (
            #[trigger] crate::tls::methods()[i]).is_prefix_of(head);
        let m = crate::tls::methods()[i];
        assert(m =~= stream.subrange(0, m.len() as int));
        assert(m.is_prefix_of(stream));
    }
}

/// A fresh classifier that is given a whole stream answers what the stream is.
pub proof fn law_one_push(stream: Seq<u8>)
    ensures
        crate::tls::push_spec(ClassifierView::Detect(Seq::empty()), stream).1
            == crate::tls::stream_outcome(stream),
{
    if stream.len() > 0 {
        if stream[0] == crate::tls::TLS_HANDSHAKE {
            lemma_deframe_records(crate::tls::fresh_deframer(), Seq::empty(), stream);
        } else {
            let k = crate::tls::least(stream.len() as int, 8);
            let head = Seq::<u8>::empty() + stream.take(k);
            assert(head =~= stream.take(k));
            if stream.len() <= 8 {
                assert(head =~= stream);
            }
            lemma_method_within(stream, head);
        }
    }
}

proof fn lemma_detect_split(prefix: Seq<u8>, a: Seq<u8>, b: Seq<u8>)
    requires
        prefix.len() <= 8,
        a.len() > 0,
        b.len() > 0,
        prefix.len() > 0 || a[0] != crate::tls::TLS_HANDSHAKE,
        crate::tls::push_spec(ClassifierView::Detect(prefix), a).1 is NeedMore,
    ensures
        crate::tls::push_spec(ClassifierView::Detect(prefix), a + b) == crate::tls::push_spec(
            crate::tls::push_spec(ClassifierView::Detect(prefix), a).0,
            b,
        ),
{
    let whole = a + b;
    let k = crate::tls::least(a.len() as int, 8 - prefix.len());
    let bytes = prefix + a.take(k);
    assert(crate::tls::detect(bytes) == (ClassifierView::Detect(bytes), Outcome::NeedMore));
    assert(bytes =~= prefix + a);
    let all = crate::tls::least(whole.len() as int, 8 - prefix.len());
    lemma_take_past(prefix, a, b, all);
}

/// A classifier that was given a part of the stream and wants more answers the
/// next part as it would have answered both at once. The state is then the same
/// too, but for a stream that is refused.
pub proof fn law_split(state: ClassifierView, a: Seq<u8>, b: Seq<u8>)
    requires
        state matches ClassifierView::Detect(prefix) ==> prefix.len() <= 8,
        crate::tls::push_spec(state, a).1 is NeedMore,
    ensures
        crate::tls::push_spec(state, a + b).1 == crate::tls::push_spec(
            crate::tls::push_spec(state, a).0,
            b,
        ).1,
        !(crate::tls::push_spec(state, a + b).1 is Invalid) ==> crate::tls::push_spec(state, a + b)
            == crate::tls::push_spec(crate::tls::push_spec(state, a).0, b),
{
    let whole = a + b;
    if b.len() == 0 {
        assert(whole =~= a);
    } else if a.len() == 0 {
        assert(whole =~= b);
        if let ClassifierView::Framing(d) = state {
            law_deframe_split(d, a, b);
        }
    } else {
        match state {
            ClassifierView::Detect(prefix) => {
                if prefix.len() == 0 && a[0] == crate::tls::TLS_HANDSHAKE {
                    law_deframe_split(crate::tls::fresh_deframer(), a, b);
                } else {
                    lemma_detect_split(prefix, a, b);
                }
            },
            ClassifierView::Framing(d) => {
                law_deframe_split(d, a, b);
            },
            ClassifierView::Complete => {},
        }
    }
}

proof fn lemma_records_stable(handshake: Seq<u8>, stream: Seq<u8>, more: Seq<u8>)
    requires
        !(crate::tls::records_outcome(handshake, stream) is NeedMore),
    ensures
        crate::tls::records_outcome(handshake, stream + more) == crate::tls::records_outcome(
            handshake,
            stream,
        ),
    decreases stream.len(),
{
    let whole = stream + more;
    assert(whole.take(5) =~= stream.take(5));
    if let Ok(len) = crate::tls::record_len(stream.take(5)) {
        assert(whole.subrange(5, 5 + len) =~= stream.subrange(5, 5 + len));
        assert(whole.skip(5 + len) =~= stream.skip(5 + len) + more);
        let next = handshake + stream.subrange(5, 5 + len);
        if crate::tls::handshake_outcome(next) is NeedMore {
            lemma_records_stable(next, stream.skip(5 + len), more);
        }
    }
}

/// Once a stream is classified or refused, what follows does not matter.
pub proof fn law_stable(stream: Seq<u8>, more: Seq<u8>)
    requires
        !(crate::tls::stream_outcome(stream) is NeedMore),
    ensures
        crate::tls::stream_outcome(stream + more) == crate::tls::stream_outcome(stream),
{
    let whole = stream + more;
    if stream[0] == crate::tls::TLS_HANDSHAKE {
        lemma_records_stable(Seq::empty(), stream, more);
    } else if crate::tls::starts_with_method(stream) {
        let i = choose|i: int|
            0 <= i < crate::tls::methods().len() && (
            #[trigger] crate::tls::methods()[i]).is_prefix_of(stream);
        let m = crate::tls::methods()[i];
        assert(m =~= whole.subrange(0, m.len() as int));
        assert(m.is_prefix_of(whole));
    } else {
        assert(stream =~= whole.subrange(0, stream.len() as int));
        if stream.len() >= 8 {
            lemma_method_within(whole, stream);
        } else {
            if crate::tls::starts_with_method(whole) {
                let i = choose|i: int|
                    0 <= i < crate::tls::methods().len() && (
                    #[trigger] crate::tls::methods()[i]).is_prefix_of(whole);
                let m = crate::tls::methods()[i];
                if m.len() <= stream.len() {
                    assert(m =~= stream.subrange(0, m.len() as int));
                    assert(m.is_prefix_of(stream));
                } else {
                    assert(stream =~= m.subrange(0, stream.len() as int));
                    assert(stream.is_prefix_of(m));
                }
            }
            if crate::tls::starts_a_method(whole) {
                let i = choose|i: int|
                    0 <= i < crate::tls::methods().len() && whole.is_prefix_of(
                        #[trigger] crate::tls::methods()[i],
                    );
                let m = crate::tls::methods()[i];
                assert(stream =~= m.subrange(0, stream.len() as int));
                assert(stream.is_prefix_of(m));
            }
        }
    }
}

/// What a classifier answers to a stream in pieces: piece after piece, until
/// one answer is not that more is needed.
pub open spec fn push_pieces(state: ClassifierView, pieces: Seq<Seq<u8>>) -> Outcome
    decreases pieces.len(),
{
    if pieces.len() == 0 {
        Outcome::NeedMore
    } else {
        let (next, out) = crate::tls::push_spec(state, pieces.first());
        match out {
            Outcome::NeedMore => push_pieces(next, pieces.drop_first()),
            done => done,
        }
    }
}

/// However a stream is cut into pieces, the answer is what the stream is.
pub proof fn law_pieces(pieces: Seq<Seq<u8>>)
    ensures
        push_pieces(ClassifierView::Detect(Seq::empty()), pieces) == crate::tls::stream_outcome(
            pieces.flatten(),
        ),
{
    lemma_pieces(ClassifierView::Detect(Seq::empty()), Seq::empty(), pieces);
    assert(Seq::<u8>::empty() + pieces.flatten() =~= pieces.flatten());
}

/// A classifier that has had a part of a stream and wants more answers the next
/// part with what the stream is.
pub proof fn law_next_piece(state: ClassifierView, before: Seq<u8>, piece: Seq<u8>)
    requires
        crate::tls::push_spec(ClassifierView::Detect(Seq::empty()), before) == (
            state,
            Outcome::NeedMore,
        ),
    ensures
        crate::tls::push_spec(state, piece).1 == crate::tls::stream_outcome(before + piece),
        crate::tls::push_spec(state, piece).1 is NeedMore ==> crate::tls::push_spec(
            ClassifierView::Detect(Seq::empty()),
            before + piece,
        ) == crate::tls::push_spec(state, piece),
{
    law_split(ClassifierView::Detect(Seq::empty()), before, piece);
    law_one_push(before + piece);
}

#[verifier::spinoff_prover]
proof fn lemma_pieces(state: ClassifierView, before: Seq<u8>, pieces: Seq<Seq<u8>>)
    requires
        crate::tls::push_spec(ClassifierView::Detect(Seq::empty()), before) == (
            state,
            Outcome::NeedMore,
        ),
    ensures
        push_pieces(state, pieces) == crate::tls::stream_outcome(before + pieces.flatten()),
    decreases pieces.len(),
{
    if pieces.len() == 0 {
        assert(before + pieces.flatten() =~= before);
        law_one_push(before);
    } else {
        let piece = pieces.first();
        let after = before + piece;
        let rest = pieces.drop_first();
        let (next, out) = crate::tls::push_spec(state, piece);
        law_next_piece(state, before, piece);
        assert(pieces.flatten() == piece + rest.flatten());
        assert(before + (piece + rest.flatten()) =~= after + rest.flatten());
        if out is NeedMore {
            lemma_pieces(next, after, rest);
        } else {
            law_stable(after, rest.flatten());
        }
    }
}

/// A classifier that has answered is done: every further push is refused, and
/// it stays done.
pub proof fn law_completed(state: ClassifierView, a: Seq<u8>, b: Seq<u8>)
    requires
        crate::tls::push_spec(state, a).1 is Complete,
    ensures
        crate::tls::push_spec(state, a).0 is Complete,
        crate::tls::push_spec(crate::tls::push_spec(state, a).0, b) == (
            ClassifierView::Complete,
            Outcome::Invalid("classifier already completed"@),
        ),
{
}

/// A deframer keeps within bounds: of a header five bytes, of a record what its
/// header declares, of the handshake the first message.
pub open spec fn within_bounds(d: DeframerView) -> bool {
    &&& d.header.len() <= 5
    &&& d.remaining <= crate::tls::MAX_RECORD_LEN
    &&& d.handshake.len() >= 4 ==> d.handshake.len() <= crate::tls::message_len(d.handshake)
}

/// However much a deframer is given, it keeps within its bounds: bytes after
/// the declared message are not retained.
pub proof fn law_bounded(d: DeframerView, input: Seq<u8>)
    requires
        within_bounds(d),
    ensures
        within_bounds(crate::tls::deframe(d, input).0),
        crate::tls::deframe(d, input).0.handshake.len() <= 0xff_ffff + 4,
    decreases input.len(), d.header.len(),
{
    if input.len() > 0 {
        if let Ok((headed, payload)) = crate::tls::with_header(d, input) {
            assert(within_bounds(headed));
            let consumed = crate::tls::least(payload.len() as int, headed.remaining as int);
            let whole = headed.handshake + payload.take(consumed);
            let kept = crate::tls::retained(whole);
            assert(kept.len() >= 4 ==> crate::tls::message_len(kept) == crate::tls::message_len(
                whole,
            ));
            if let Ok((ended, rest)) = crate::tls::with_payload(headed, payload) {
                law_bounded((DeframerView { header: Seq::empty(), ..ended }), rest);
            }
        }
    }
}

/// A server name, where there is one, is in normal form.
pub open spec fn sni_is_normal(sni: Result<Option<Seq<char>>, Seq<char>>) -> bool {
    sni matches Ok(Some(name)) ==> crate::hostname::normalized_name(name) == Some(name)
}

proof fn lemma_names_normal(names: Seq<u8>, at: int)
    ensures
        sni_is_normal(crate::client_hello::names_sni(names, at)),
    decreases names.len() - at,
{
    if at < names.len() {
        if let Ok(len_at) = crate::client_hello::field_end(names, at, 1) {
            if let Ok(start) = crate::client_hello::field_end(names, len_at, 2) {
                let len = crate::client_hello::be16(names, len_at);
                if let Ok(end) = crate::client_hello::field_end(names, start, len) {
                    let name = names.subrange(start, end);
                    let text = vstd::utf8::decode_utf8(name);
                    if crate::hostname::normalized_name(text) is Some {
                        crate::hostname_laws::law_normal_form_is_fixed(text);
                    }
                    if names[at] != 0 {
                        lemma_names_normal(names, end);
                    }
                }
            }
        }
    }
}

proof fn lemma_extensions_normal(extensions: Seq<u8>, at: int)
    ensures
        sni_is_normal(crate::client_hello::extensions_sni(extensions, at)),
    decreases extensions.len() - at,
{
    if at < extensions.len() {
        if let Ok(len_at) = crate::client_hello::field_end(extensions, at, 2) {
            if let Ok(start) = crate::client_hello::field_end(extensions, len_at, 2) {
                let len = crate::client_hello::be16(extensions, len_at);
                if let Ok(end) = crate::client_hello::field_end(extensions, start, len) {
                    let list = extensions.subrange(start, end);
                    let names = list.subrange(2, list.len() as int);
                    lemma_names_normal(names, 0);
                    if crate::client_hello::be16(extensions, at)
                        != crate::client_hello::SERVER_NAME_EXTENSION {
                        lemma_extensions_normal(extensions, end);
                    }
                }
            }
        }
    }
}

/// A ClientHello yields a server name in normal form or none.
pub proof fn law_hello_sni_is_normal(hello: Seq<u8>)
    ensures
        sni_is_normal(crate::client_hello::hello_sni(hello)),
{
    assert forall|start: int, end: int| sni_is_normal(
        #[trigger] crate::client_hello::extensions_sni(hello.subrange(start, end), 0),
    ) by {
        lemma_extensions_normal(hello.subrange(start, end), 0);
    }
}

proof fn lemma_records_normal(handshake: Seq<u8>, stream: Seq<u8>)
    ensures
        crate::tls::records_outcome(handshake, stream) matches Outcome::Complete(
            ClassificationView::Tls { sni: Some(name) },
        ) ==> crate::hostname::normalized_name(name) == Some(name),
    decreases stream.len(),
{
    if stream.len() >= 5 {
        if let Ok(len) = crate::tls::record_len(stream.take(5)) {
            if stream.len() >= 5 + len {
                let more = handshake + stream.subrange(5, 5 + len);
                law_hello_sni_is_normal(more.subrange(4, crate::tls::message_len(more)));
                lemma_records_normal(more, stream.skip(5 + len));
            }
        }
    }
}

/// The server name of a classified stream is in normal form, so that it can be
/// looked up as it is.
pub proof fn law_sni_is_normal(stream: Seq<u8>, name: Seq<char>)
    requires
        crate::tls::stream_outcome(stream) == Outcome::Complete(
            ClassificationView::Tls { sni: Some(name) },
        ),
    ensures
        crate::hostname::normalized_name(name) == Some(name),
{
    lemma_records_normal(Seq::empty(), stream);
}

} // verus!
