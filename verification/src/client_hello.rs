//! The body of a TLS ClientHello, down to the server name that it asks for.

use vstd::prelude::*;
use vstd::slice::slice_subrange;

use crate::hostname::normalize_name;

verus! {

/// The extension that carries the server name.
pub const SERVER_NAME_EXTENSION: u16 = 0;

/// Why a stream cannot be classified.
#[derive(Debug, PartialEq, Eq)]
pub enum ParseError {
    Invalid(&'static str),
}

impl View for ParseError {
    type V = Seq<char>;

    open spec fn view(&self) -> Seq<char> {
        match self {
            ParseError::Invalid(message) => message@,
        }
    }
}

impl ParseError {
    /// The error as a text for a log.
    pub fn message(&self) -> (text: String)
        ensures
            text@ == "invalid TLS ClientHello: "@ + self@,
    {
        let ParseError::Invalid(message) = self;
        let mut text = "invalid TLS ClientHello: ".to_string();
        text.append(message);
        text
    }
}

/// Where the field of `len` bytes at `at` ends.
pub open spec fn field_end(input: Seq<u8>, at: int, len: int) -> Result<int, Seq<char>> {
    if at + len > usize::MAX {
        Err("length overflow"@)
    } else if at + len > input.len() {
        Err("truncated ClientHello field"@)
    } else {
        Ok(at + len)
    }
}

/// The big-endian 16-bit number at `at`.
pub open spec fn be16(input: Seq<u8>, at: int) -> int {
    input[at] * 256 + input[at + 1]
}

/// The body of a ClientHello: version and random, session id, cipher suites,
/// compression methods, and then nothing or the extensions. The result is the
/// normal form of the server name, if there is one.
pub open spec fn hello_sni(hello: Seq<u8>) -> Result<Option<Seq<char>>, Seq<char>> {
    match field_end(hello, 0, 34) {
        Err(e) => Err(e),
        Ok(at) => match field_end(hello, at, 1) {
            Err(e) => Err(e),
            Ok(start) => match field_end(hello, start, hello[at] as int) {
                Err(e) => Err(e),
                Ok(end) => cipher_suites_onward(hello, end),
            },
        },
    }
}

/// `hello_sni` from the cipher suites at `at` on: at least one suite of two
/// bytes each.
pub open spec fn cipher_suites_onward(hello: Seq<u8>, at: int) -> Result<
    Option<Seq<char>>,
    Seq<char>,
> {
    match field_end(hello, at, 2) {
        Err(e) => Err(e),
        Ok(start) => {
            let len = be16(hello, at);
            if len < 2 || len % 2 != 0 {
                Err("invalid cipher suite vector"@)
            } else {
                match field_end(hello, start, len) {
                    Err(e) => Err(e),
                    Ok(end) => compression_onward(hello, end),
                }
            }
        },
    }
}

/// `hello_sni` from the compression methods at `at` on: at least one method of
/// one byte.
pub open spec fn compression_onward(hello: Seq<u8>, at: int) -> Result<
    Option<Seq<char>>,
    Seq<char>,
> {
    match field_end(hello, at, 1) {
        Err(e) => Err(e),
        Ok(start) => if hello[at] == 0 {
            Err("empty compression vector"@)
        } else {
            match field_end(hello, start, hello[at] as int) {
                Err(e) => Err(e),
                Ok(end) => if end == hello.len() {
                    Ok(None)
                } else {
                    extension_block(hello, end)
                },
            }
        },
    }
}

/// `hello_sni` from the extension block at `at` on, which ends the hello.
pub open spec fn extension_block(hello: Seq<u8>, at: int) -> Result<Option<Seq<char>>, Seq<char>> {
    match field_end(hello, at, 2) {
        Err(e) => Err(e),
        Ok(start) => match field_end(hello, start, be16(hello, at)) {
            Err(e) => Err(e),
            Ok(end) => if end != hello.len() {
                Err("trailing ClientHello bytes"@)
            } else {
                extensions_sni(hello.subrange(start, end), 0)
            },
        },
    }
}

/// What the first server name extension at or after `at` says.
pub open spec fn extensions_sni(extensions: Seq<u8>, at: int) -> Result<Option<Seq<char>>, Seq<char>>
    decreases extensions.len() - at,
{
    if at >= extensions.len() {
        Ok(None)
    } else {
        match field_end(extensions, at, 2) {
            Err(e) => Err(e),
            Ok(len_at) => match field_end(extensions, len_at, 2) {
                Err(e) => Err(e),
                Ok(start) => match field_end(extensions, start, be16(extensions, len_at)) {
                    Err(e) => Err(e),
                    Ok(end) => if be16(extensions, at) == SERVER_NAME_EXTENSION {
                        name_list_sni(extensions.subrange(start, end))
                    } else {
                        extensions_sni(extensions, end)
                    },
                },
            },
        }
    }
}

/// What a server name extension says: its one field is a list of names.
pub open spec fn name_list_sni(extension: Seq<u8>) -> Result<Option<Seq<char>>, Seq<char>> {
    match field_end(extension, 0, 2) {
        Err(e) => Err(e),
        Ok(start) => match field_end(extension, start, be16(extension, 0)) {
            Err(e) => Err(e),
            Ok(end) => if end != extension.len() {
                Err("trailing SNI extension bytes"@)
            } else {
                names_sni(extension.subrange(start, end), 0)
            },
        },
    }
}

/// The first name of type zero at or after `at`; other types are skipped.
pub open spec fn names_sni(names: Seq<u8>, at: int) -> Result<Option<Seq<char>>, Seq<char>>
    decreases names.len() - at,
{
    if at >= names.len() {
        Ok(None)
    } else {
        match field_end(names, at, 1) {
            Err(e) => Err(e),
            Ok(len_at) => match field_end(names, len_at, 2) {
                Err(e) => Err(e),
                Ok(start) => match field_end(names, start, be16(names, len_at)) {
                    Err(e) => Err(e),
                    Ok(end) => if names[at] == 0 {
                        host_name_sni(names.subrange(start, end))
                    } else {
                        names_sni(names, end)
                    },
                },
            },
        }
    }
}

/// The normal form of one host name as it stands on the wire.
pub open spec fn host_name_sni(name: Seq<u8>) -> Result<Option<Seq<char>>, Seq<char>> {
    if !vstd::utf8::valid_utf8(name) {
        Err("SNI hostname is not UTF-8"@)
    } else {
        match crate::hostname::normalized_name(vstd::utf8::decode_utf8(name)) {
            Some(n) => Ok(Some(n)),
            None => Err("invalid SNI hostname"@),
        }
    }
}

/// The view of a parsed server name.
pub open spec fn sni_view(result: Result<Option<String>, ParseError>) -> Result<
    Option<Seq<char>>,
    Seq<char>,
> {
    match result {
        Ok(Some(name)) => Ok(Some(name@)),
        Ok(None) => Ok(None),
        Err(error) => Err(error@),
    }
}

/// Reads `len` bytes at the cursor and moves it past them; on an error the
/// cursor stays.
pub fn take<'a>(input: &'a [u8], cursor: &mut usize, len: usize) -> (value: Result<
    &'a [u8],
    ParseError,
>)
    ensures
        match value {
            Ok(bytes) => {
                &&& field_end(input@, *old(cursor) as int, len as int) == Ok::<int, Seq<char>>(
                    *final(cursor) as int,
                )
                &&& bytes@ == input@.subrange(*old(cursor) as int, *final(cursor) as int)
            },
            Err(error) => {
                &&& field_end(input@, *old(cursor) as int, len as int) == Err::<int, Seq<char>>(
                    error@,
                )
                &&& *final(cursor) == *old(cursor)
            },
        },
{
    let end = match cursor.checked_add(len) {
        Some(end) => end,
        None => return Err(ParseError::Invalid("length overflow")),
    };
    if end > input.len() {
        return Err(ParseError::Invalid("truncated ClientHello field"));
    }
    let value = slice_subrange(input, *cursor, end);
    *cursor = end;
    Ok(value)
}

/// Reads a big-endian 16-bit number at the cursor and moves it past it.
pub fn read_u16(input: &[u8], cursor: &mut usize) -> (value: Result<u16, ParseError>)
    ensures
        match value {
            Ok(number) => {
                &&& field_end(input@, *old(cursor) as int, 2) == Ok::<int, Seq<char>>(
                    *final(cursor) as int,
                )
                &&& number == be16(input@, *old(cursor) as int)
            },
            Err(error) => {
                &&& field_end(input@, *old(cursor) as int, 2) == Err::<int, Seq<char>>(error@)
                &&& *final(cursor) == *old(cursor)
            },
        },
{
    let value = take(input, cursor, 2)?;
    let high = value[0];
    let low = value[1];
    Ok(high as u16 * 256 + low as u16)
}

/// The normal form of a server name from the wire.
pub fn normalize_sni(value: &str) -> (name: Result<String, ParseError>)
    ensures
        match name {
            Ok(n) => crate::hostname::normalized_name(value@) == Some(n@),
            Err(error) => {
                &&& crate::hostname::normalized_name(value@) is None
                &&& error@ == "invalid SNI hostname"@
            },
        },
{
    match normalize_name(value) {
        Some(name) => Ok(name),
        None => Err(ParseError::Invalid("invalid SNI hostname")),
    }
}

/// The server name in a list of names.
fn parse_names(names: &[u8]) -> (sni: Result<Option<String>, ParseError>)
    ensures
        sni_view(sni) == names_sni(names@, 0),
{
    let mut cursor: usize = 0;
    while cursor < names.len()
        invariant
            names_sni(names@, cursor as int) == names_sni(names@, 0),
        decreases names@.len() - cursor,
    {
        let name_type = take(names, &mut cursor, 1)?[0];
        let name_len = read_u16(names, &mut cursor)? as usize;
        let name = take(names, &mut cursor, name_len)?;
        if name_type == 0 {
            let text = match core::str::from_utf8(name) {
                Ok(text) => text,
                Err(_) => return Err(ParseError::Invalid("SNI hostname is not UTF-8")),
            };
            proof {
                vstd::utf8::encode_utf8_decode_utf8(text@);
            }
            let normalized = normalize_sni(text)?;
            return Ok(Some(normalized));
        }
    }
    Ok(None)
}

/// The server name in the payload of a server name extension.
fn parse_name_list(extension: &[u8]) -> (sni: Result<Option<String>, ParseError>)
    ensures
        sni_view(sni) == name_list_sni(extension@),
{
    let mut cursor: usize = 0;
    let name_list_len = read_u16(extension, &mut cursor)? as usize;
    let names = take(extension, &mut cursor, name_list_len)?;
    if cursor != extension.len() {
        return Err(ParseError::Invalid("trailing SNI extension bytes"));
    }
    parse_names(names)
}

/// The server name in a sequence of extensions.
fn parse_extensions(extensions: &[u8]) -> (sni: Result<Option<String>, ParseError>)
    ensures
        sni_view(sni) == extensions_sni(extensions@, 0),
{
    let mut cursor: usize = 0;
    while cursor < extensions.len()
        invariant
            extensions_sni(extensions@, cursor as int) == extensions_sni(extensions@, 0),
        decreases extensions@.len() - cursor,
    {
        let extension_type = read_u16(extensions, &mut cursor)?;
        let extension_len = read_u16(extensions, &mut cursor)? as usize;
        let extension = take(extensions, &mut cursor, extension_len)?;
        if extension_type == SERVER_NAME_EXTENSION {
            return parse_name_list(extension);
        }
    }
    Ok(None)
}

/// The server name that a ClientHello body asks for, in its normal form.
pub fn parse_client_hello(hello: &[u8]) -> (sni: Result<Option<String>, ParseError>)
    ensures
        sni_view(sni) == hello_sni(hello@),
{
    let mut cursor: usize = 0;
    take(hello, &mut cursor, 34)?;
    let session_id_len = take(hello, &mut cursor, 1)?[0] as usize;
    take(hello, &mut cursor, session_id_len)?;
    let cipher_len = read_u16(hello, &mut cursor)? as usize;
    if cipher_len < 2 || cipher_len % 2 != 0 {
        return Err(ParseError::Invalid("invalid cipher suite vector"));
    }
    take(hello, &mut cursor, cipher_len)?;
    let compression_len = take(hello, &mut cursor, 1)?[0] as usize;
    if compression_len == 0 {
        return Err(ParseError::Invalid("empty compression vector"));
    }
    take(hello, &mut cursor, compression_len)?;
    if cursor == hello.len() {
        return Ok(None);
    }
    let extensions_len = read_u16(hello, &mut cursor)? as usize;
    let extensions = take(hello, &mut cursor, extensions_len)?;
    if cursor != hello.len() {
        return Err(ParseError::Invalid("trailing ClientHello bytes"));
    }
    parse_extensions(extensions)
}

} // verus!
