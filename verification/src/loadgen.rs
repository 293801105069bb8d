//! The load generator for the TLS fallback: its bounds, and what it takes for a
//! correct exchange.

use vstd::prelude::*;
use vstd::slice::slice_subrange;
use vstd::string::StringSliceAdditionalSpecFns;

use crate::address::SocketAddr;
use crate::certificate::read_certificates;
use crate::error::{io_error_text, ErrorKind, RelayError};
use crate::number::decimal;
use crate::text::same_text;

verus! {

/// The server name that the generator asks for.
pub const HOST: &'static str = "fallback-bench.invalid";

/// The body of every response.
pub const BODY: &'static str = "port-rental-fallback-benchmark-ok\n";

/// Every response.
pub const RESPONSE: &'static str = "HTTP/1.1 200 OK\r\nContent-Type: text/plain\r\nContent-Length: 34\r\nConnection: close\r\n\r\nport-rental-fallback-benchmark-ok\n";

/// Every request.
pub const REQUEST: &'static str = "GET /health HTTP/1.1\r\nHost: fallback-bench.invalid\r\nConnection: close\r\n\r\n";

/// The most requests at one time.
pub const MAX_CONCURRENCY: usize = 4096;

/// The longest run, in seconds.
pub const MAX_DURATION_SECONDS: usize = 3600;

/// The place of the first argument that is this, at or after `from`, or the end.
pub open spec fn argument_at(arguments: Seq<String>, name: Seq<char>, from: int) -> int
    decreases arguments.len() - from,
{
    if from >= arguments.len() || arguments[from]@ == name {
        from
    } else {
        argument_at(arguments, name, from + 1)
    }
}

/// The argument after the first that is `name`, or why there is none.
pub open spec fn argument_value(arguments: Seq<String>, name: Seq<char>) -> Result<
    Seq<char>,
    Seq<char>,
> {
    let at = argument_at(arguments, name, 0);
    if at >= arguments.len() {
        Err("missing "@ + name)
    } else if at + 1 >= arguments.len() {
        Err("missing value for "@ + name)
    } else {
        Ok(arguments[at + 1]@)
    }
}

/// The argument after the first that is `name`.
pub fn argument(arguments: &Vec<String>, name: &str) -> (value: Result<String, RelayError>)
    ensures
        match value {
            Ok(v) => argument_value(arguments@, name@) == Ok::<Seq<char>, Seq<char>>(v@),
            Err(error) => error.kind == ErrorKind::InvalidInput && argument_value(
                arguments@,
                name@,
            ) == Err::<Seq<char>, Seq<char>>(error.message@),
        },
{
    let mut at: usize = 0;
    while at < arguments.len()
        invariant
            at <= arguments@.len(),
            argument_at(arguments@, name@, at as int) == argument_at(arguments@, name@, 0),
        decreases arguments@.len() - at,
    {
        if same_text(arguments[at].as_str(), name) {
            if at + 1 < arguments.len() {
                return Ok(arguments[at + 1].as_str().to_string());
            }
            let mut message = "missing value for ".to_string();
            message.append(name);
            return Err(RelayError { kind: ErrorKind::InvalidInput, message });
        }
        at += 1;
    }
    let mut message = "missing ".to_string();
    message.append(name);
    Err(RelayError { kind: ErrorKind::InvalidInput, message })
}

/// Refuses a number that is not between one and `maximum`.
pub fn bounded_usize(name: &str, value: usize, maximum: usize) -> (bounded: Result<
    usize,
    RelayError,
>)
    ensures
        match bounded {
            Ok(n) => n == value && 1 <= value <= maximum,
            Err(error) => !(1 <= value <= maximum) && error.is(
                ErrorKind::InvalidInput,
                name@ + " must be between 1 and "@ + crate::number::decimal_digits(maximum as nat),
            ),
        },
{
    if 1 <= value && value <= maximum {
        return Ok(value);
    }
    let mut message = name.to_string();
    message.append(" must be between 1 and ");
    message.append(decimal(maximum as u64).as_str());
    Err(RelayError { kind: ErrorKind::InvalidInput, message })
}

/// Refuses an address that is not a loopback one.
pub fn loopback_address(name: &str, address: SocketAddr) -> (result: Result<
    SocketAddr,
    RelayError,
>)
    ensures
        match result {
            Ok(a) => a == address && crate::address::loopback(address.ip()),
            Err(error) => !crate::address::loopback(address.ip()) && error.is(
                ErrorKind::InvalidInput,
                name@ + " must be a literal loopback address"@,
            ),
        },
{
    crate::fallback::ensure_loopback(name, address)?;
    Ok(address)
}

/// What reading the certificates that the generator trusts came to: at least
/// one, or a refusal.
pub fn check_roots(parsed: Result<Vec<Vec<u8>>, std::io::Error>) -> (roots: Result<
    Vec<Vec<u8>>,
    RelayError,
>)
    ensures
        match parsed {
            Ok(list) => if list@.len() == 0 {
                roots matches Err(error) && error.is(
                    ErrorKind::InvalidInput,
                    "certificate file contains no certificates"@,
                )
            } else {
                roots == Ok::<Vec<Vec<u8>>, RelayError>(list)
            },
            Err(_) => roots matches Err(error) && error.kind == ErrorKind::Other,
        },
{
    match parsed {
        Ok(list) => {
            if list.len() == 0 {
                Err(
                    RelayError::new(
                        ErrorKind::InvalidInput,
                        "certificate file contains no certificates",
                    ),
                )
            } else {
                Ok(list)
            }
        },
        Err(error) => Err(RelayError { kind: ErrorKind::Other, message: io_error_text(&error) }),
    }
}

/// The certificates in a PEM text that the generator trusts, at least one.
pub fn parse_roots(pem: &[u8]) -> (roots: Result<Vec<Vec<u8>>, RelayError>)
    ensures
        match roots {
            Ok(list) => list@.len() > 0 && crate::certificate::pem_certificates(pem@) == Some(
                crate::certificate::ders(list@),
            ),
            Err(error) => match crate::certificate::pem_certificates(pem@) {
                Some(list) => list.len() == 0 && error.is(
                    ErrorKind::InvalidInput,
                    "certificate file contains no certificates"@,
                ),
                None => error.kind == ErrorKind::Other,
            },
        },
{
    check_roots(read_certificates(pem))
}

/// The bytes hold the part somewhere.
pub open spec fn holds(bytes: Seq<u8>, part: Seq<u8>) -> bool {
    exists|at: int|
        0 <= at <= bytes.len() - part.len() && #[trigger] bytes.subrange(at, at + part.len())
            == part
}

/// The bytes end in the part.
pub open spec fn ends_in(bytes: Seq<u8>, part: Seq<u8>) -> bool {
    bytes.len() >= part.len() && bytes.skip(bytes.len() - part.len()) == part
}

/// Whether the bytes at a place are the part.
fn holds_at(bytes: &[u8], at: usize, part: &[u8]) -> (yes: bool)
    requires
        at + part@.len() <= bytes@.len(),
    ensures
        yes == (bytes@.subrange(at as int, at + part@.len()) == part@),
{
    let total = bytes.len();
    assert(at + part@.len() <= total);
    let found = slice_subrange(bytes, at, at + part.len());
    let mut i: usize = 0;
    while i < part.len()
        invariant
            i <= part@.len() == found@.len(),
            found@ == bytes@.subrange(at as int, at + part@.len()),
            forall|j: int| 0 <= j < i ==> #[trigger] found@[j] == part@[j],
        decreases part@.len() - i,
    {
        if found[i] != part[i] {
            return false;
        }
        i += 1;
    }
    assert(found@ =~= part@);
    true
}

/// Whether the bytes so far tell of success: a read that fails after that ends
/// the response, as some servers close without notice.
pub fn tells_success(response: &[u8]) -> (yes: bool)
    ensures
        yes == holds(response@, "200 OK".spec_bytes()),
{
    let part = "200 OK".as_bytes();
    proof {
        reveal_strlit("200 OK");
        vstd::utf8::is_ascii_chars_encode_utf8("200 OK"@);
    }
    if part.len() > response.len() {
        return false;
    }
    let last = response.len() - part.len();
    let mut at: usize = 0;
    while at <= last
        invariant
            part@ == "200 OK".spec_bytes(),
            last + part@.len() == response@.len() <= usize::MAX,
            part@.len() > 0,
            at <= last + 1,
            forall|k: int|
                0 <= k < at ==> #[trigger] response@.subrange(k, k + part@.len()) != part@,
        decreases last + 1 - at,
    {
        if holds_at(response, at, part) {
            return true;
        }
        at += 1;
    }
    false
}

/// Whether a response is the expected one.
pub fn is_expected_response(response: &[u8]) -> (yes: bool)
    ensures
        yes == (holds(response@, "200 OK".spec_bytes()) && ends_in(response@, BODY.spec_bytes())),
{
    if !tells_success(response) {
        return false;
    }
    let body = BODY.as_bytes();
    if body.len() > response.len() {
        return false;
    }
    let at = response.len() - body.len();
    let yes = holds_at(response, at, body);
    assert(response@.skip(at as int) =~= response@.subrange(at as int, at + body@.len()));
    yes
}

proof fn lemma_argument_at(arguments: Seq<String>, name: Seq<char>, from: int, at: int)
    requires
        0 <= from <= at <= arguments.len(),
        forall|i: int| from <= i < at ==> (#[trigger] arguments[i])@ != name,
        at == arguments.len() || arguments[at]@ == name,
    ensures
        argument_at(arguments, name, from) == at,
    decreases at - from,
{
    if from < at {
        assert(arguments[from]@ != name);
        lemma_argument_at(arguments, name, from + 1, at);
    }
}

/// The value of an argument is what stands behind its first occurrence. An
/// argument that does not occur is missing, and so is the value of one that
/// stands last.
pub proof fn law_values_stand_behind_their_names(
    arguments: Seq<String>,
    name: Seq<char>,
    at: int,
)
    requires
        0 <= at <= arguments.len(),
        forall|i: int| 0 <= i < at ==> (#[trigger] arguments[i])@ != name,
        at == arguments.len() || arguments[at]@ == name,
    ensures
        argument_value(arguments, name) == if at == arguments.len() {
            Err::<Seq<char>, Seq<char>>("missing "@ + name)
        } else if at + 1 == arguments.len() {
            Err::<Seq<char>, Seq<char>>("missing value for "@ + name)
        } else {
            Ok::<Seq<char>, Seq<char>>(arguments[at + 1]@)
        },
{
    lemma_argument_at(arguments, name, 0, at);
}

/// Bytes hold a part if and only if they are something, the part, and something
/// more; they end in it if and only if they are something and the part.
pub proof fn law_parts_are_found(bytes: Seq<u8>, part: Seq<u8>)
    ensures
        holds(bytes, part) <==> exists|front: Seq<u8>, back: Seq<u8>|
            bytes == #[trigger] (front + part + back),
        ends_in(bytes, part) <==> exists|front: Seq<u8>| bytes == #[trigger] (front + part),
{
    if holds(bytes, part) {
        let at = choose|at: int|
            0 <= at <= bytes.len() - part.len() && #[trigger] bytes.subrange(at, at + part.len())
                == part;
        assert(bytes =~= bytes.take(at) + part + bytes.skip(at + part.len()));
    }
    if exists|front: Seq<u8>, back: Seq<u8>| bytes == #[trigger] (front + part + back) {
        let (front, back) = choose|front: Seq<u8>, back: Seq<u8>|
            bytes == #[trigger] (front + part + back);
        let at = front.len() as int;
        assert(bytes.subrange(at, at + part.len()) =~= part);
    }
    if ends_in(bytes, part) {
        assert(bytes =~= bytes.take(bytes.len() - part.len()) + part);
    }
    if exists|front: Seq<u8>| bytes == #[trigger] (front + part) {
        let front = choose|front: Seq<u8>| bytes == #[trigger] (front + part);
        assert(bytes.skip(bytes.len() - part.len()) =~= part);
    }
}

/// The response that the generator is given to serve is one that it expects, and
/// what it asks for is the host that it connects for.
pub proof fn law_own_response_is_expected()
    ensures
        holds(RESPONSE.spec_bytes(), "200 OK".spec_bytes()),
        ends_in(RESPONSE.spec_bytes(), BODY.spec_bytes()),
        exists|front: Seq<u8>, back: Seq<u8>|
            REQUEST.spec_bytes() == #[trigger] (front + HOST.spec_bytes() + back),
        BODY.spec_bytes().len() == 34,
{
    reveal_strlit(
        "HTTP/1.1 200 OK\r\nContent-Type: text/plain\r\nContent-Length: 34\r\nConnection: close\r\n\r\nport-rental-fallback-benchmark-ok\n",
    );
    reveal_strlit("port-rental-fallback-benchmark-ok\n");
    reveal_strlit("fallback-bench.invalid");
    reveal_strlit("200 OK");
    reveal_strlit(
        "GET /health HTTP/1.1\r\nHost: fallback-bench.invalid\r\nConnection: close\r\n\r\n",
    );
    vstd::utf8::is_ascii_chars_encode_utf8(RESPONSE@);
    vstd::utf8::is_ascii_chars_encode_utf8(BODY@);
    vstd::utf8::is_ascii_chars_encode_utf8(HOST@);
    vstd::utf8::is_ascii_chars_encode_utf8(REQUEST@);
    vstd::utf8::is_ascii_chars_encode_utf8("200 OK"@);
    let response = RESPONSE.spec_bytes();
    let request = REQUEST.spec_bytes();
    let part = "200 OK".spec_bytes();
    assert(response.subrange(9, 9 + part.len() as int) =~= part);
    assert(response.skip(response.len() - 34) =~= BODY.spec_bytes());
    assert(request.subrange(28, 50) =~= HOST.spec_bytes());
    assert(request =~= request.take(28) + HOST.spec_bytes() + request.skip(50));
}

} // verus!
