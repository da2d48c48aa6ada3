//! The delivery protocol: a line-framed, one-envelope-per-line wire
//! encoding, and the connection-state machine of the protocol client.
//!
//! Every request the client sends is built here as the exact byte
//! sequence of its JSON line; opaque binary fields travel as base64.
//! The transport itself (dialing, writing, reading) is an external
//! collaborator: it hands lines in and out, and reports dial results.

use vstd::prelude::*;
use vstd::string::StringSliceAdditionalSpecFns;
use vstd::utf8::encode_utf8;

use base64::engine::general_purpose::STANDARD;
use base64::Engine;

use crate::errors::EngineError;

verus! {

/// The base64 (standard alphabet, padded) text of a byte sequence.
pub uninterp spec fn b64str_of(data: Seq<u8>) -> Seq<char>;

/// What base64 decoding of a text returns.
pub uninterp spec fn b64_parse_of(s: Seq<char>) -> Option<Seq<u8>>;

/// Relies on `base64`'s standard engine `encode`: deterministic
/// base64 text whose decoding yields the input again.
#[verifier::external_body]
pub(crate) fn b64_encode(data: &[u8]) -> (r: String)
    ensures
        r@ == b64str_of(data@),
        b64_parse_of(r@) == Some(data@),
{
    STANDARD.encode(data)
}

/// How one byte stands inside a JSON string: quote, backslash and the
/// common control characters escaped, other control bytes as a
/// Unicode escape, everything else verbatim.
pub open spec fn esc_byte(b: u8) -> Seq<u8> {
    if b == 34 {
        seq![92u8, 34u8]
    } else if b == 92 {
        seq![92u8, 92u8]
    } else if b == 10 {
        seq![92u8, 110u8]
    } else if b == 13 {
        seq![92u8, 114u8]
    } else if b == 9 {
        seq![92u8, 116u8]
    } else if b < 32 {
        seq![92u8, 117u8, 48u8, 48u8, hex_digit((b / 16) as u8), hex_digit((b % 16) as u8)]
    } else {
        seq![b]
    }
}

/// The lowercase hexadecimal digit for a value below 16.
pub open spec fn hex_digit(n: u8) -> u8
    recommends
        n < 16,
{
    if n < 10 {
        (48 + n) as u8
    } else {
        (87 + n) as u8
    }
}

/// A byte sequence escaped for use inside a JSON string.
pub open spec fn json_escaped(s: Seq<u8>) -> Seq<u8>
    decreases s.len(),
{
    if s.len() == 0 {
        Seq::empty()
    } else {
        json_escaped(s.drop_last()) + esc_byte(s.last())
    }
}

/// A JSON string literal: the text's UTF-8 bytes, escaped, in quotes.
pub open spec fn json_string_bytes(s: Seq<char>) -> Seq<u8> {
    encode_utf8("\""@) + json_escaped(encode_utf8(s)) + encode_utf8("\""@)
}

/// An optional JSON string: `null` when absent.
pub open spec fn json_opt_chars(o: Option<Seq<char>>) -> Seq<u8> {
    match o {
        Some(s) => json_string_bytes(s),
        None => encode_utf8("null"@),
    }
}

/// The view of an optional string.
pub open spec fn opt_chars(o: Option<String>) -> Option<Seq<char>> {
    match o {
        Some(s) => Some(s@),
        None => None,
    }
}

/// The decimal notation of a 64-bit integer, as bytes.
pub open spec fn dec_bytes(n: int) -> Seq<u8>
    recommends
        n >= 0,
    decreases n,
{
    if n < 10 {
        seq![(48 + n) as u8]
    } else {
        dec_bytes(n / 10) + seq![(48 + n % 10) as u8]
    }
}

/// Append a slice of bytes.
pub fn push_bytes(out: &mut Vec<u8>, b: &[u8])
    ensures
        final(out)@ == old(out)@ + b@,
{
    let ghost base = out@;
    let mut i: usize = 0;
    while i < b.len()
        invariant
            i <= b@.len(),
            out@ == base + b@.take(i as int),
        decreases b@.len() - i,
    {
        out.push(b[i]);
        i = i + 1;
        assert(out@ =~= base + b@.take(i as int));
    }
    assert(base + b@.take(b@.len() as int) =~= base + b@);
}

/// Append the UTF-8 bytes of a text.
pub fn push_lit(out: &mut Vec<u8>, s: &str)
    ensures
        final(out)@ == old(out)@ + encode_utf8(s@),
{
    push_bytes(out, s.as_bytes());
}

/// Append the bytes of a text, escaped for a JSON string.
pub fn push_json_escaped(out: &mut Vec<u8>, b: &[u8])
    ensures
        final(out)@ == old(out)@ + json_escaped(b@),
{
    let ghost base = out@;
    let mut i: usize = 0;
    while i < b.len()
        invariant
            i <= b@.len(),
            out@ == base + json_escaped(b@.take(i as int)),
        decreases b@.len() - i,
    {
        let ghost pre = out@;
        let x = b[i];
        if x == 34 {
            out.push(92);
            out.push(34);
        } else if x == 92 {
            out.push(92);
            out.push(92);
        } else if x == 10 {
            out.push(92);
            out.push(110);
        } else if x == 13 {
            out.push(92);
            out.push(114);
        } else if x == 9 {
            out.push(92);
            out.push(116);
        } else if x < 32 {
            out.push(92);
            out.push(117);
            out.push(48);
            out.push(48);
            out.push(48 + x / 16);
            let lo = x % 16;
            if lo < 10 {
                out.push(48 + lo);
            } else {
                out.push(87 + lo);
            }
        } else {
            out.push(x);
        }
        i = i + 1;
        proof {
            assert(out@ =~= pre + esc_byte(b@[i - 1]));
            assert(b@.take(i as int).drop_last() =~= b@.take(i - 1));
            assert(b@.take(i as int).last() == b@[i - 1]);
            assert(out@ =~= base + json_escaped(b@.take(i as int)));
        }
    }
    assert(b@.take(b@.len() as int) =~= b@);
}

/// Append a JSON string literal holding the text `s`.
pub fn push_json_string(out: &mut Vec<u8>, s: &str)
    ensures
        final(out)@ == old(out)@ + json_string_bytes(s@),
{
    push_lit(out, "\"");
    push_json_escaped(out, s.as_bytes());
    push_lit(out, "\"");
    assert(final(out)@ =~= old(out)@ + json_string_bytes(s@));
}

/// Append the decimal notation of `n`.
pub fn push_u64_dec_bytes(out: &mut Vec<u8>, n: u64)
    ensures
        final(out)@ == old(out)@ + dec_bytes(n as int),
    decreases n,
{
    if n >= 10 {
        push_u64_dec_bytes(out, n / 10);
    }
    out.push(48 + (n % 10) as u8);
    proof {
        if n >= 10 {
            assert(old(out)@ + dec_bytes(n as int) =~= (old(out)@ + dec_bytes(n as int / 10)).push(
                (48 + n as int % 10) as u8,
            ));
        }
        assert(final(out)@ =~= old(out)@ + dec_bytes(n as int));
    }
}

/// An application message envelope, one per line on the wire.
pub struct NetworkMessage {
    pub message_type: String,
    pub sender: String,
    pub recipient: Option<String>,
    pub group_id: Option<String>,
    pub content: Vec<u8>,
    pub timestamp: u64,
}

/// The exact line an application message envelope with the given
/// field values is sent as.
pub open spec fn network_message_line_v(
    message_type: Seq<char>,
    sender: Seq<char>,
    recipient: Option<Seq<char>>,
    group_id: Option<Seq<char>>,
    content: Seq<u8>,
    timestamp: u64,
) -> Seq<u8> {
    encode_utf8("{\"type\":"@) + json_string_bytes(message_type) + encode_utf8(",\"sender\":"@)
        + json_string_bytes(sender) + encode_utf8(",\"recipient\":"@) + json_opt_chars(recipient)
        + encode_utf8(",\"group_id\":"@) + json_opt_chars(group_id) + encode_utf8(
        ",\"content\":"@,
    ) + json_string_bytes(b64str_of(content)) + encode_utf8(",\"timestamp\":"@) + dec_bytes(
        timestamp as int,
    ) + encode_utf8("}\n"@)
}

/// The exact line an application message envelope is sent as.
pub open spec fn network_message_line(m: NetworkMessage) -> Seq<u8> {
    network_message_line_v(
        m.message_type@,
        m.sender@,
        opt_chars(m.recipient),
        opt_chars(m.group_id),
        m.content@,
        m.timestamp,
    )
}

impl NetworkMessage {
    /// Encode this envelope as its wire line.
    pub fn encode_line(&self) -> (r: Vec<u8>)
        ensures
            r@ == network_message_line(*self),
    {
        let mut out: Vec<u8> = Vec::new();
        push_lit(&mut out, "{\"type\":");
        push_json_string(&mut out, self.message_type.as_str());
        push_lit(&mut out, ",\"sender\":");
        push_json_string(&mut out, self.sender.as_str());
        push_lit(&mut out, ",\"recipient\":");
        match &self.recipient {
            Some(s) => push_json_string(&mut out, s.as_str()),
            None => push_lit(&mut out, "null"),
        }
        push_lit(&mut out, ",\"group_id\":");
        match &self.group_id {
            Some(s) => push_json_string(&mut out, s.as_str()),
            None => push_lit(&mut out, "null"),
        }
        push_lit(&mut out, ",\"content\":");
        let content_b64 = b64_encode(self.content.as_slice());
        push_json_string(&mut out, content_b64.as_str());
        push_lit(&mut out, ",\"timestamp\":");
        push_u64_dec_bytes(&mut out, self.timestamp);
        push_lit(&mut out, "}\n");
        assert(out@ =~= network_message_line(*self));
        out
    }
}

/// The capability handshake sent once immediately after connecting.
pub struct ListKeyPackagesMessage {
    pub message_type: String,
    pub client_id: String,
}

/// The exact line of a `list_key_packages` request.
pub open spec fn list_key_packages_line(client_id: Seq<char>) -> Seq<u8> {
    encode_utf8("{\"type\":\"list_key_packages\",\"client_id\":"@) + json_string_bytes(client_id)
        + encode_utf8("}\n"@)
}

impl ListKeyPackagesMessage {
    /// Encode this request as its wire line.
    pub fn encode_line(&self) -> (r: Vec<u8>)
        requires
            self.message_type@ == "list_key_packages"@,
        ensures
            r@ == list_key_packages_line(self.client_id@),
    {
        let mut out: Vec<u8> = Vec::new();
        push_lit(&mut out, "{\"type\":\"list_key_packages\",\"client_id\":");
        push_json_string(&mut out, self.client_id.as_str());
        push_lit(&mut out, "}\n");
        assert(out@ =~= list_key_packages_line(self.client_id@));
        out
    }
}

/// The request that registers a newly created group with the service.
pub struct CreateGroupMessage {
    pub message_type: String,
    pub group_id: String,
    pub creator_id: String,
    pub group_info: String,
}

/// The exact line of a `create_group` request carrying `group_info`
/// as base64.
pub open spec fn create_group_line(
    group_id: Seq<char>,
    creator_id: Seq<char>,
    group_info: Seq<u8>,
) -> Seq<u8> {
    encode_utf8("{\"type\":\"create_group\",\"group_id\":"@) + json_string_bytes(group_id)
        + encode_utf8(",\"creator_id\":"@) + json_string_bytes(creator_id) + encode_utf8(
        ",\"group_info\":"@,
    ) + json_string_bytes(b64str_of(group_info)) + encode_utf8("}\n"@)
}

impl CreateGroupMessage {
    /// Encode this request as its wire line; `group_info` must
    /// already hold the base64 text of the registered group data.
    pub fn encode_line(&self) -> (r: Vec<u8>)
        ensures
            r@ == encode_utf8("{\"type\":\"create_group\",\"group_id\":"@) + json_string_bytes(
                self.group_id@,
            ) + encode_utf8(",\"creator_id\":"@) + json_string_bytes(self.creator_id@)
                + encode_utf8(",\"group_info\":"@) + json_string_bytes(self.group_info@)
                + encode_utf8("}\n"@),
    {
        let mut out: Vec<u8> = Vec::new();
        push_lit(&mut out, "{\"type\":\"create_group\",\"group_id\":");
        push_json_string(&mut out, self.group_id.as_str());
        push_lit(&mut out, ",\"creator_id\":");
        push_json_string(&mut out, self.creator_id.as_str());
        push_lit(&mut out, ",\"group_info\":");
        push_json_string(&mut out, self.group_info.as_str());
        push_lit(&mut out, "}\n");
        assert(out@ =~= encode_utf8("{\"type\":\"create_group\",\"group_id\":"@)
            + json_string_bytes(self.group_id@) + encode_utf8(",\"creator_id\":"@)
            + json_string_bytes(self.creator_id@) + encode_utf8(",\"group_info\":"@)
            + json_string_bytes(self.group_info@) + encode_utf8("}\n"@));
        out
    }
}

/// The request that asks to join a group, carrying the caller's key
/// package.
pub struct JoinGroupMessage {
    pub message_type: String,
    pub group_id: String,
    pub client_id: String,
    pub key_package: String,
}

/// The exact line of a `join_group` request carrying the key package
/// as base64.
pub open spec fn join_group_line(
    group_id: Seq<char>,
    client_id: Seq<char>,
    key_package: Seq<u8>,
) -> Seq<u8> {
    encode_utf8("{\"type\":\"join_group\",\"group_id\":"@) + json_string_bytes(group_id)
        + encode_utf8(",\"client_id\":"@) + json_string_bytes(client_id) + encode_utf8(
        ",\"key_package\":"@,
    ) + json_string_bytes(b64str_of(key_package)) + encode_utf8("}\n"@)
}

impl JoinGroupMessage {
    /// Encode this request as its wire line; `key_package` must
    /// already hold the base64 text of the serialized package.
    pub fn encode_line(&self) -> (r: Vec<u8>)
        ensures
            r@ == encode_utf8("{\"type\":\"join_group\",\"group_id\":"@) + json_string_bytes(
                self.group_id@,
            ) + encode_utf8(",\"client_id\":"@) + json_string_bytes(self.client_id@)
                + encode_utf8(",\"key_package\":"@) + json_string_bytes(self.key_package@)
                + encode_utf8("}\n"@),
    {
        let mut out: Vec<u8> = Vec::new();
        push_lit(&mut out, "{\"type\":\"join_group\",\"group_id\":");
        push_json_string(&mut out, self.group_id.as_str());
        push_lit(&mut out, ",\"client_id\":");
        push_json_string(&mut out, self.client_id.as_str());
        push_lit(&mut out, ",\"key_package\":");
        push_json_string(&mut out, self.key_package.as_str());
        push_lit(&mut out, "}\n");
        assert(out@ =~= encode_utf8("{\"type\":\"join_group\",\"group_id\":"@) + json_string_bytes(
            self.group_id@,
        ) + encode_utf8(",\"client_id\":"@) + json_string_bytes(self.client_id@) + encode_utf8(
            ",\"key_package\":"@,
        ) + json_string_bytes(self.key_package@) + encode_utf8("}\n"@));
        out
    }
}

/// The request that asks which groups the service knows.
pub struct ListGroupsMessage {
    pub message_type: String,
    pub client_id: String,
}

/// The exact line of a `list_groups` request.
pub open spec fn list_groups_line(client_id: Seq<char>) -> Seq<u8> {
    encode_utf8("{\"type\":\"list_groups\",\"client_id\":"@) + json_string_bytes(client_id)
        + encode_utf8("}\n"@)
}

impl ListGroupsMessage {
    /// Encode this request as its wire line.
    pub fn encode_line(&self) -> (r: Vec<u8>)
        requires
            self.message_type@ == "list_groups"@,
        ensures
            r@ == list_groups_line(self.client_id@),
    {
        let mut out: Vec<u8> = Vec::new();
        push_lit(&mut out, "{\"type\":\"list_groups\",\"client_id\":");
        push_json_string(&mut out, self.client_id.as_str());
        push_lit(&mut out, "}\n");
        assert(out@ =~= list_groups_line(self.client_id@));
        out
    }
}

/// The delivery protocol client's connection state, and the requests
/// it frames.  Dialing and byte transport live outside the engine;
/// the client enforces the protocol's preconditions and produces each
/// request's exact wire line.
pub struct NetworkClient {
    pub delivery_service_address: String,
    pub connected: bool,
}

impl NetworkClient {
    /// A client for the service at the given address, initially
    /// disconnected.  Connecting is an explicit, separate step.
    pub fn new(delivery_service_address: &str) -> (r: NetworkClient)
        ensures
            r.delivery_service_address@ == delivery_service_address@,
            !r.connected,
    {
        NetworkClient { delivery_service_address: delivery_service_address.to_owned(), connected: false }
    }

    /// Fold the outcome of a dial attempt into the connection state.
    /// On success the client becomes connected and hands back the
    /// capability handshake to send immediately; on failure or
    /// timeout it is disconnected, a normal operating mode rather
    /// than an error, and no partial connection is retained.
    pub fn connect(&mut self, dial_succeeded: bool, client_id: &str) -> (r: Option<Vec<u8>>)
        ensures
            final(self).connected == dial_succeeded,
            final(self).delivery_service_address == old(self).delivery_service_address,
            dial_succeeded ==> (r matches Some(line) && line@ == list_key_packages_line(
                client_id@,
            )),
            !dial_succeeded ==> r is None,
    {
        if dial_succeeded {
            self.connected = true;
            let msg = ListKeyPackagesMessage {
                message_type: String::from_str("list_key_packages"),
                client_id: client_id.to_owned(),
            };
            Some(msg.encode_line())
        } else {
            self.connected = false;
            None
        }
    }

    /// Whether the client currently holds a connection.
    pub fn is_connected(&self) -> (r: bool)
        ensures
            r == self.connected,
    {
        self.connected
    }

    /// Frame an application message envelope for sending.
    pub fn send_message(&self, message: &NetworkMessage) -> (r: Result<Vec<u8>, EngineError>)
        ensures
            r matches Ok(line) ==> self.connected && line@ == network_message_line(*message),
            r matches Err(e) ==> !self.connected && e == EngineError::NotConnected,
    {
        if !self.connected {
            return Err(EngineError::NotConnected);
        }
        Ok(message.encode_line())
    }

    /// Ask for the messages of a group.  The service answers over the
    /// shared stream; no messages are returned here.
    pub fn fetch_messages(&self, group_id: &str) -> (r: Result<Vec<NetworkMessage>, EngineError>)
        ensures
            r matches Ok(v) ==> self.connected && v@.len() == 0,
            r matches Err(e) ==> !self.connected && e == EngineError::NotConnected,
    {
        if !self.connected {
            return Err(EngineError::NotConnected);
        }
        let _ = group_id;
        Ok(Vec::new())
    }

    /// Publish this client's key package.  Requires a connection.
    ///
    /// The wire protocol defines no publish envelope, so this
    /// operation only enforces the connectivity precondition; the
    /// package bytes are accepted and dropped, exactly as in the
    /// stubbed service exchange the protocol leaves open.  Relaying
    /// them would need a wire shape of its own and a changed result.
    pub fn publish_key_package(&self, key_package: &[u8]) -> (r: Result<(), EngineError>)
        ensures
            r is Ok <==> self.connected,
            r matches Err(e) ==> e == EngineError::NotConnected,
    {
        if !self.connected {
            return Err(EngineError::NotConnected);
        }
        let _ = key_package;
        Ok(())
    }

    /// Fetch the key packages published for an identity.  The service
    /// answers over the shared stream; none are returned here.
    pub fn fetch_key_packages(&self, identity: &str) -> (r: Result<Vec<Vec<u8>>, EngineError>)
        ensures
            r matches Ok(v) ==> self.connected && v@.len() == 0,
            r matches Err(e) ==> !self.connected && e == EngineError::NotConnected,
    {
        if !self.connected {
            return Err(EngineError::NotConnected);
        }
        let _ = identity;
        Ok(Vec::new())
    }

    /// Frame the request that registers a group with the service.
    pub fn create_group(&self, group_id: &str, group_info: &[u8], creator_id: &str) -> (r: Result<
        Vec<u8>,
        EngineError,
    >)
        ensures
            r matches Ok(line) ==> self.connected && line@ == create_group_line(
                group_id@,
                creator_id@,
                group_info@,
            ),
            r matches Err(e) ==> !self.connected && e == EngineError::NotConnected,
    {
        if !self.connected {
            return Err(EngineError::NotConnected);
        }
        let msg = CreateGroupMessage {
            message_type: String::from_str("create_group"),
            group_id: group_id.to_owned(),
            creator_id: creator_id.to_owned(),
            group_info: b64_encode(group_info),
        };
        let line = msg.encode_line();
        assert(line@ =~= create_group_line(group_id@, creator_id@, group_info@));
        Ok(line)
    }

    /// Frame the request that asks to join a group with the given key
    /// package.  The service answers with a welcome payload, or with
    /// an empty payload meaning not found or denied; the caller folds
    /// that answer in separately.
    pub fn join_group(&self, group_id: &str, key_package: &[u8], client_id: &str) -> (r: Result<
        Vec<u8>,
        EngineError,
    >)
        ensures
            r matches Ok(line) ==> self.connected && line@ == join_group_line(
                group_id@,
                client_id@,
                key_package@,
            ),
            r matches Err(e) ==> !self.connected && e == EngineError::NotConnected,
    {
        if !self.connected {
            return Err(EngineError::NotConnected);
        }
        let msg = JoinGroupMessage {
            message_type: String::from_str("join_group"),
            group_id: group_id.to_owned(),
            client_id: client_id.to_owned(),
            key_package: b64_encode(key_package),
        };
        let line = msg.encode_line();
        assert(line@ =~= join_group_line(group_id@, client_id@, key_package@));
        Ok(line)
    }

    /// Frame the request that lists the groups the service knows.
    pub fn list_groups(&self, client_id: &str) -> (r: Result<Vec<u8>, EngineError>)
        ensures
            r matches Ok(line) ==> self.connected && line@ == list_groups_line(client_id@),
            r matches Err(e) ==> !self.connected && e == EngineError::NotConnected,
    {
        if !self.connected {
            return Err(EngineError::NotConnected);
        }
        let msg = ListGroupsMessage {
            message_type: String::from_str("list_groups"),
            client_id: client_id.to_owned(),
        };
        Ok(msg.encode_line())
    }
}

} // verus!
