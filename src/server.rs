use vstd::prelude::*;
use vstd::string::*;
use vstd::utf8::{decode_utf8, encode_utf8, encode_utf8_decode_utf8, valid_utf8};

use crate::codec::{
    base64_decoded, chars_of, decode_base64, json_object_strings, json_string_member,
    parse_json_object, utf8_text,
};
use crate::config::{
    OutboundSettings, Outbound, ServerTrojan, StreamSettings, TLSSettings, User, Vnext, WSSettings,
    WSSettingsHeaders,
};
use crate::errors::{Error, ErrorKind};
use crate::text::{
    decimal_value, find_char, first_index, last_index, parse_decimal, percent_decode,
    percent_decoded, range_eq, rfind_char, text_range,
};

verus! {

/// A vmess upstream server.
#[derive(Debug, PartialEq, Eq)]
pub struct VmessServer {
    pub name: String,
    pub network: String,
    pub user_id: String,
    pub alter_id: u32,
    pub address: String,
    pub port: u16,
}

/// A trojan upstream server.
#[derive(Debug, PartialEq, Eq)]
pub struct TrojanServer {
    pub name: String,
    pub address: String,
    pub port: u16,
    pub password: String,
    pub sni: String,
    pub allow_insecure: bool,
    pub network: String,
    pub path: String,
}

/// A candidate upstream server.
#[derive(Debug, PartialEq, Eq)]
pub enum ServerType {
    Vmess(VmessServer),
    Trojan(TrojanServer),
}

pub struct VmessModel {
    pub name: Seq<char>,
    pub network: Seq<char>,
    pub user_id: Seq<char>,
    pub alter_id: u32,
    pub address: Seq<char>,
    pub port: u16,
}

pub struct TrojanModel {
    pub name: Seq<char>,
    pub address: Seq<char>,
    pub port: u16,
    pub password: Seq<char>,
    pub sni: Seq<char>,
    pub allow_insecure: bool,
    pub network: Seq<char>,
    pub path: Seq<char>,
}

/// What a server is, with its text as characters.
pub enum ServerModel {
    Vmess(VmessModel),
    Trojan(TrojanModel),
}

impl View for VmessServer {
    type V = VmessModel;

    open spec fn view(&self) -> VmessModel {
        VmessModel {
            name: self.name@,
            network: self.network@,
            user_id: self.user_id@,
            alter_id: self.alter_id,
            address: self.address@,
            port: self.port,
        }
    }
}

impl View for TrojanServer {
    type V = TrojanModel;

    open spec fn view(&self) -> TrojanModel {
        TrojanModel {
            name: self.name@,
            address: self.address@,
            port: self.port,
            password: self.password@,
            sni: self.sni@,
            allow_insecure: self.allow_insecure,
            network: self.network@,
            path: self.path@,
        }
    }
}

impl View for ServerType {
    type V = ServerModel;

    open spec fn view(&self) -> ServerModel {
        match self {
            ServerType::Vmess(s) => ServerModel::Vmess(s@),
            ServerType::Trojan(s) => ServerModel::Trojan(s@),
        }
    }
}

impl Clone for VmessServer {
    fn clone(&self) -> (r: Self)
        ensures
            r == *self,
    {
        VmessServer {
            name: self.name.clone(),
            network: self.network.clone(),
            user_id: self.user_id.clone(),
            alter_id: self.alter_id,
            address: self.address.clone(),
            port: self.port,
        }
    }
}

impl Clone for TrojanServer {
    fn clone(&self) -> (r: Self)
        ensures
            r == *self,
    {
        TrojanServer {
            name: self.name.clone(),
            address: self.address.clone(),
            port: self.port,
            password: self.password.clone(),
            sni: self.sni.clone(),
            allow_insecure: self.allow_insecure,
            network: self.network.clone(),
            path: self.path.clone(),
        }
    }
}

impl Clone for ServerType {
    fn clone(&self) -> (r: Self)
        ensures
            r == *self,
    {
        match self {
            ServerType::Vmess(s) => ServerType::Vmess(s.clone()),
            ServerType::Trojan(s) => ServerType::Trojan(s.clone()),
        }
    }
}

impl TrojanServer {
    /// A trojan server with every text empty, port 0 and certificate checks on.
    pub fn new() -> (r: TrojanServer)
        ensures
            r.name@.len() == 0 && r.address@.len() == 0 && r.password@.len() == 0,
            r.sni@.len() == 0 && r.network@.len() == 0 && r.path@.len() == 0,
            r.port == 0,
            !r.allow_insecure,
    {
        TrojanServer {
            name: String::new(),
            address: String::new(),
            port: 0,
            password: String::new(),
            sni: String::new(),
            allow_insecure: false,
            network: String::new(),
            path: String::new(),
        }
    }
}

/// A port: a decimal number from 1 to 65535.
pub open spec fn port_number(t: Seq<char>) -> Option<u16> {
    match decimal_value(t) {
        Some(n) => if 1 <= n <= 65535 {
            Some(n as u16)
        } else {
            None
        },
        None => None,
    }
}

/// An alter id: a decimal number that fits in 32 bits.
pub open spec fn alter_id_number(t: Seq<char>) -> Option<u32> {
    match decimal_value(t) {
        Some(n) => if n <= u32::MAX {
            Some(n as u32)
        } else {
            None
        },
        None => None,
    }
}

/// The vmess server that the string members of a JSON object describe.
pub open spec fn vmess_from_members(m: Map<Seq<char>, Seq<char>>) -> Result<ServerModel, ErrorKind> {
    if m.contains_key("v"@) && m.contains_key("ps"@) && m.contains_key("add"@) && m.contains_key(
        "port"@,
    ) && m.contains_key("id"@) && m.contains_key("aid"@) && m.contains_key("net"@)
        && m.contains_key("type"@) && m.contains_key("host"@) && m.contains_key("path"@)
        && m.contains_key("tls"@) {
        match (port_number(m["port"@]), alter_id_number(m["aid"@])) {
            (Some(port), Some(alter_id)) => if m["add"@].len() > 0 {
                Ok(
                    ServerModel::Vmess(
                        VmessModel {
                            name: m["ps"@],
                            network: m["net"@],
                            user_id: m["id"@],
                            alter_id,
                            address: m["add"@],
                            port,
                        },
                    ),
                )
            } else {
                Err(ErrorKind::InvalidPayload)
            },
            _ => Err(ErrorKind::InvalidPayload),
        }
    } else {
        Err(ErrorKind::InvalidPayload)
    }
}

/// A vmess payload: base64 of a UTF-8 JSON object.
pub open spec fn parse_vmess(payload: Seq<char>) -> Result<ServerModel, ErrorKind> {
    match base64_decoded(encode_utf8(payload)) {
        None => Err(ErrorKind::InvalidPayload),
        Some(bytes) => if !valid_utf8(bytes) {
            Err(ErrorKind::InvalidEncoding)
        } else {
            match json_object_strings(decode_utf8(bytes)) {
                None => Err(ErrorKind::InvalidPayload),
                Some(m) => vmess_from_members(m),
            }
        },
    }
}

/// The value of the first `key=value` pair of an `&`-separated query whose
/// key is `key`; a pair without `=` has the empty value.
pub open spec fn query_lookup(q: Seq<char>, key: Seq<char>) -> Option<Seq<char>>
    decreases q.len(),
{
    let e = first_index(q, '&');
    let pair = q.subrange(0, e);
    let eq = first_index(pair, '=');
    let value = if eq < pair.len() {
        pair.subrange(eq + 1, pair.len() as int)
    } else {
        Seq::empty()
    };
    if pair.subrange(0, eq) == key {
        Some(value)
    } else if 0 <= e < q.len() {
        query_lookup(q.subrange(e + 1, q.len() as int), key)
    } else {
        None
    }
}

/// The server name for TLS: `sni`, else `peer`, else empty.
pub open spec fn query_sni(q: Seq<char>) -> Seq<char> {
    match query_lookup(q, "sni"@) {
        Some(v) => v,
        None => match query_lookup(q, "peer"@) {
            Some(v) => v,
            None => Seq::empty(),
        },
    }
}

/// `allowInsecure` is set to `1` or `true`.
pub open spec fn query_insecure(q: Seq<char>) -> bool {
    match query_lookup(q, "allowInsecure"@) {
        Some(v) => v == "1"@ || v == "true"@,
        None => false,
    }
}

pub open spec fn query_text(q: Seq<char>, key: Seq<char>) -> Seq<char> {
    match query_lookup(q, key) {
        Some(v) => v,
        None => Seq::empty(),
    }
}

/// A trojan payload: `password@host:port?query#name`, where `?query` and
/// `#name` may be left out and the name is percent-encoded UTF-8.
pub open spec fn parse_trojan(p: Seq<char>) -> Result<ServerModel, ErrorKind> {
    let h = first_index(p, '#');
    let main = p.subrange(0, h);
    let frag = if h < p.len() {
        p.subrange(h + 1, p.len() as int)
    } else {
        Seq::empty()
    };
    let q = first_index(main, '?');
    let auth = main.subrange(0, q);
    let query = if q < main.len() {
        main.subrange(q + 1, main.len() as int)
    } else {
        Seq::empty()
    };
    let at = first_index(auth, '@');
    let hostport = auth.subrange(at + 1, auth.len() as int);
    let colon = last_index(hostport, ':');
    let name = percent_decode(encode_utf8(frag));
    if at >= auth.len() || at == 0 || colon <= 0 {
        Err(ErrorKind::InvalidPayload)
    } else {
        match port_number(hostport.subrange(colon + 1, hostport.len() as int)) {
            None => Err(ErrorKind::InvalidPayload),
            Some(port) => if !valid_utf8(name) {
                Err(ErrorKind::InvalidPayload)
            } else {
                Ok(
                    ServerModel::Trojan(
                        TrojanModel {
                            name: decode_utf8(name),
                            address: hostport.subrange(0, colon),
                            port,
                            password: auth.subrange(0, at),
                            sni: query_sni(query),
                            allow_insecure: query_insecure(query),
                            network: query_text(query, "type"@),
                            path: query_text(query, "path"@),
                        },
                    ),
                )
            },
        }
    }
}

/// A subscription entry `<scheme>://<payload>`.
pub open spec fn parse_entry(s: Seq<char>) -> Result<ServerModel, ErrorKind> {
    let k = first_index(s, ':');
    if k + 3 <= s.len() && s[k + 1] == '/' && s[k + 2] == '/' {
        let scheme = s.subrange(0, k);
        let payload = s.subrange(k + 3, s.len() as int);
        if scheme == "vmess"@ {
            parse_vmess(payload)
        } else if scheme == "trojan"@ {
            parse_trojan(payload)
        } else {
            Err(ErrorKind::UnsupportedScheme)
        }
    } else {
        Err(ErrorKind::UnsupportedScheme)
    }
}

/// The scheme of an entry `<scheme>://<payload>` whose scheme is neither
/// `vmess` nor `trojan`; `None` for any other entry.
pub open spec fn unknown_scheme(s: Seq<char>) -> Option<Seq<char>> {
    let k = first_index(s, ':');
    if k + 3 <= s.len() && s[k + 1] == '/' && s[k + 2] == '/' && s.subrange(0, k) != "vmess"@
        && s.subrange(0, k) != "trojan"@ {
        Some(s.subrange(0, k))
    } else {
        None
    }
}

/// The outcome of a parse, against its specification.
pub open spec fn parsed_as(r: Result<ServerType, Error>, expected: Result<ServerModel, ErrorKind>) -> bool {
    match r {
        Ok(s) => expected == Ok::<ServerModel, ErrorKind>(s@),
        Err(e) => expected == Err::<ServerModel, ErrorKind>(e.kind),
    }
}

fn fail(kind: ErrorKind, message: &str) -> (r: Result<ServerType, Error>)
    ensures
        r matches Err(e) && e.kind == kind,
{
    Err(Error::new(kind, message.to_owned()))
}

fn port_of(v: &Vec<char>, from: usize, to: usize) -> (r: Option<u16>)
    requires
        from <= to <= v.len(),
    ensures
        r == port_number(v@.subrange(from as int, to as int)),
{
    let ghost d = decimal_value(v@.subrange(from as int, to as int));
    match parse_decimal(v, from, to, 65535) {
        Some(n) => if n >= 1 {
            proof {
                assert(d is Some && d->0 == n as int);
            }
            Some(n as u16)
        } else {
            None
        },
        None => None,
    }
}

fn number_of(text: &String, max: u32) -> (r: Option<u32>)
    ensures
        match decimal_value(text@) {
            Some(n) => if n <= max {
                r == Some(n as u32)
            } else {
                r is None
            },
            None => r is None,
        },
        r matches Some(n) ==> decimal_value(text@) == Some(n as int),
{
    let v = chars_of(text.as_str());
    proof {
        assert(v@.subrange(0, v@.len() as int) =~= v@);
    }
    parse_decimal(&v, 0, v.len(), max)
}

fn vmess_from_json(text: &str) -> (r: Result<ServerType, Error>)
    ensures
        parsed_as(
            r,
            match json_object_strings(text@) {
                None => Err(ErrorKind::InvalidPayload),
                Some(m) => vmess_from_members(m),
            },
        ),
{
    let m = match parse_json_object(text) {
        Some(m) => m,
        None => {
            return fail(ErrorKind::InvalidPayload, "vmess payload is not a JSON object");
        },
    };
    if json_string_member(&m, "v").is_none() || json_string_member(&m, "type").is_none()
        || json_string_member(&m, "host").is_none() || json_string_member(&m, "path").is_none()
        || json_string_member(&m, "tls").is_none() {
        return fail(ErrorKind::InvalidPayload, "vmess payload lacks a field");
    }
    let name = match json_string_member(&m, "ps") {
        Some(x) => x,
        None => {
            return fail(ErrorKind::InvalidPayload, "vmess payload lacks a field");
        },
    };
    let address = match json_string_member(&m, "add") {
        Some(x) => x,
        None => {
            return fail(ErrorKind::InvalidPayload, "vmess payload lacks a field");
        },
    };
    let port_text = match json_string_member(&m, "port") {
        Some(x) => x,
        None => {
            return fail(ErrorKind::InvalidPayload, "vmess payload lacks a field");
        },
    };
    let user_id = match json_string_member(&m, "id") {
        Some(x) => x,
        None => {
            return fail(ErrorKind::InvalidPayload, "vmess payload lacks a field");
        },
    };
    let aid_text = match json_string_member(&m, "aid") {
        Some(x) => x,
        None => {
            return fail(ErrorKind::InvalidPayload, "vmess payload lacks a field");
        },
    };
    let network = match json_string_member(&m, "net") {
        Some(x) => x,
        None => {
            return fail(ErrorKind::InvalidPayload, "vmess payload lacks a field");
        },
    };
    let port = match number_of(&port_text, 65535) {
        Some(p) => if p >= 1 {
            proof {
                assert(decimal_value(port_text@) is Some && decimal_value(port_text@)->0 == p as int);
            }
            p as u16
        } else {
            return fail(ErrorKind::InvalidPayload, "vmess port is out of range");
        },
        None => {
            return fail(ErrorKind::InvalidPayload, "vmess port is not a port number");
        },
    };
    let alter_id = match number_of(&aid_text, u32::MAX) {
        Some(a) => a,
        None => {
            return fail(ErrorKind::InvalidPayload, "vmess alterId is not a number");
        },
    };
    if address.as_str().is_empty() {
        return fail(ErrorKind::InvalidPayload, "vmess address is empty");
    }
    Ok(ServerType::Vmess(VmessServer { name, network, user_id, alter_id, address, port }))
}

fn vmess_from_payload(payload: &str) -> (r: Result<ServerType, Error>)
    ensures
        parsed_as(r, parse_vmess(payload@)),
{
    let decoded = match decode_base64(payload.as_bytes()) {
        Some(d) => d,
        None => {
            return fail(ErrorKind::InvalidPayload, "vmess payload is not base64");
        },
    };
    let ghost bytes = decoded@;
    let text = match utf8_text(decoded) {
        Some(t) => t,
        None => {
            return fail(ErrorKind::InvalidEncoding, "vmess payload is not UTF-8");
        },
    };
    proof {
        encode_utf8_decode_utf8(text@);
    }
    vmess_from_json(text.as_str())
}

/// Where the value of `key` stands in the query `v[from..to]`.
fn query_find(v: &Vec<char>, from: usize, to: usize, key: &Vec<char>) -> (r: Option<(usize, usize)>)
    requires
        from <= to <= v.len(),
    ensures
        match query_lookup(v@.subrange(from as int, to as int), key@) {
            Some(val) => r matches Some((a, b)) && from <= a <= b <= to && v@.subrange(
                a as int,
                b as int,
            ) == val,
            None => r is None,
        },
{
    let mut p = from;
    loop
        invariant
            from <= p <= to <= v.len(),
            query_lookup(v@.subrange(from as int, to as int), key@) == query_lookup(
                v@.subrange(p as int, to as int),
                key@,
            ),
        decreases to - p,
    {
        let ghost q = v@.subrange(p as int, to as int);
        let e = find_char(v, '&', p, to);
        let eq = find_char(v, '=', p, e);
        proof {
            let pair = q.subrange(0, e - p);
            assert(pair =~= v@.subrange(p as int, e as int));
            assert(pair.subrange(0, eq - p) =~= v@.subrange(p as int, eq as int));
            if eq < e {
                assert(pair.subrange(eq - p + 1, e - p) =~= v@.subrange(eq + 1, e as int));
            }
            if e < to {
                assert(q.subrange(e - p + 1, q.len() as int) =~= v@.subrange(e + 1, to as int));
            }
        }
        if range_eq(v, p, eq, key) {
            if eq < e {
                return Some((eq + 1, e));
            } else {
                proof {
                    assert(v@.subrange(e as int, e as int) =~= Seq::<char>::empty());
                }
                return Some((e, e));
            }
        }
        if e == to {
            return None;
        }
        p = e + 1;
    }
}

fn query_string(s: &str, v: &Vec<char>, from: usize, to: usize, key: &Vec<char>) -> (r: Option<String>)
    requires
        from <= to <= v.len(),
        v@ == s@,
    ensures
        match query_lookup(v@.subrange(from as int, to as int), key@) {
            Some(val) => r matches Some(t) && t@ == val,
            None => r is None,
        },
{
    match query_find(v, from, to, key) {
        Some((a, b)) => Some(text_range(s, a, b)),
        None => None,
    }
}

fn trojan_from_payload(entry: &str, v: &Vec<char>, base: usize) -> (r: Result<ServerType, Error>)
    requires
        v@ == entry@,
        base <= v@.len(),
    ensures
        parsed_as(r, parse_trojan(v@.subrange(base as int, v@.len() as int))),
{
    let n = v.len();
    let ghost p = v@.subrange(base as int, n as int);
    let h = find_char(v, '#', base, n);
    let ghost main = p.subrange(0, h - base);
    proof {
        assert(main =~= v@.subrange(base as int, h as int));
    }
    let q = find_char(v, '?', base, h);
    let ghost auth = main.subrange(0, q - base);
    proof {
        assert(auth =~= v@.subrange(base as int, q as int));
    }
    let at = find_char(v, '@', base, q);
    if at == q || at == base {
        return fail(ErrorKind::InvalidPayload, "trojan payload lacks a password");
    }
    let ghost hostport = auth.subrange(at - base + 1, auth.len() as int);
    proof {
        assert(hostport =~= v@.subrange(at + 1, q as int));
    }
    let colon = match rfind_char(v, ':', at + 1, q) {
        Some(c) => c,
        None => {
            return fail(ErrorKind::InvalidPayload, "trojan payload lacks a port");
        },
    };
    if colon == at + 1 {
        return fail(ErrorKind::InvalidPayload, "trojan payload lacks a host");
    }
    proof {
        assert(hostport.subrange(colon - at, hostport.len() as int) =~= v@.subrange(
            colon + 1,
            q as int,
        ));
        assert(hostport.subrange(0, colon - at - 1) =~= v@.subrange(at + 1, colon as int));
        assert(auth.subrange(0, at - base) =~= v@.subrange(base as int, at as int));
    }
    let port = match port_of(v, colon + 1, q) {
        Some(port) => port,
        None => {
            return fail(ErrorKind::InvalidPayload, "trojan port is not a port number");
        },
    };
    let frag_start = if h < n {
        h + 1
    } else {
        n
    };
    proof {
        if h < n {
            assert(p.subrange(h - base + 1, p.len() as int) =~= v@.subrange(h + 1, n as int));
        } else {
            assert(v@.subrange(n as int, n as int) =~= Seq::<char>::empty());
        }
    }
    let frag = text_range(entry, frag_start, n);
    let name_bytes = percent_decoded(frag.as_str().as_bytes());
    let name = match utf8_text(name_bytes) {
        Some(t) => t,
        None => {
            return fail(ErrorKind::InvalidPayload, "trojan name is not UTF-8");
        },
    };
    proof {
        encode_utf8_decode_utf8(name@);
    }
    let query_start = if q < h {
        q + 1
    } else {
        h
    };
    let ghost query = if q - base < main.len() {
        main.subrange(q - base + 1, main.len() as int)
    } else {
        Seq::empty()
    };
    proof {
        assert(query =~= v@.subrange(query_start as int, h as int));
    }
    let sni_key = chars_of("sni");
    let peer_key = chars_of("peer");
    let insecure_key = chars_of("allowInsecure");
    let type_key = chars_of("type");
    let path_key = chars_of("path");
    let one = chars_of("1");
    let yes = chars_of("true");
    let sni = match query_string(entry, v, query_start, h, &sni_key) {
        Some(t) => t,
        None => match query_string(entry, v, query_start, h, &peer_key) {
            Some(t) => t,
            None => String::new(),
        },
    };
    let allow_insecure = match query_find(v, query_start, h, &insecure_key) {
        Some((a, b)) => range_eq(v, a, b, &one) || range_eq(v, a, b, &yes),
        None => false,
    };
    let network = match query_string(entry, v, query_start, h, &type_key) {
        Some(t) => t,
        None => String::new(),
    };
    let path = match query_string(entry, v, query_start, h, &path_key) {
        Some(t) => t,
        None => String::new(),
    };
    let address = text_range(entry, at + 1, colon);
    let password = text_range(entry, base, at);
    Ok(
        ServerType::Trojan(
            TrojanServer {
                name,
                address,
                port,
                password,
                sni,
                allow_insecure,
                network,
                path,
            },
        ),
    )
}

/// Parses one subscription entry, `vmess://<base64 JSON>` or
/// `trojan://<password>@<host>:<port>?<query>#<name>`.
pub fn from_str(server_url: &str) -> (r: Result<ServerType, Error>)
    ensures
        parsed_as(r, parse_entry(server_url@)),
        unknown_scheme(server_url@) matches Some(scheme) ==> (r matches Err(e) && e.message@
            == "unsupported scheme: "@ + scheme),
{
    let v = chars_of(server_url);
    let n = v.len();
    let k = find_char(&v, ':', 0, n);
    proof {
        assert(v@.subrange(0, n as int) =~= v@);
    }
    if n - k < 3 || v[k + 1] != '/' || v[k + 2] != '/' {
        return fail(ErrorKind::UnsupportedScheme, "entry is not <scheme>://<payload>");
    }
    let vmess = chars_of("vmess");
    let trojan = chars_of("trojan");
    if range_eq(&v, 0, k, &vmess) {
        let payload = server_url.substring_char(k + 3, n);
        vmess_from_payload(payload)
    } else if range_eq(&v, 0, k, &trojan) {
        trojan_from_payload(server_url, &v, k + 3)
    } else {
        let scheme = server_url.substring_char(0, k);
        Err(Error::new(ErrorKind::UnsupportedScheme, "unsupported scheme: ".to_owned().concat(scheme)))
    }
}

/// `o` is the proxy outbound that routes through `server`.
pub open spec fn is_outbound_for(o: Outbound, server: ServerModel) -> bool {
    &&& o.tag@ == "proxy"@
    &&& o.mux is None
    &&& match server {
        ServerModel::Vmess(m) => {
            &&& o.protocol@ == "vmess"@
            &&& o.settings.servers is None
            &&& o.settings.vnext matches Some(vn) && vn@.len() == 1 && vn@[0].address@
                == m.address && vn@[0].port == m.port && vn@[0].users@.len() == 1
                && vn@[0].users@[0].id@ == m.user_id && vn@[0].users@[0].alter_id == m.alter_id
                && vn@[0].users@[0].security@ == "aes-128-gcm"@
            &&& o.stream_settings matches Some(ss) && ss.network@ == "tcp"@ && ss.security@
                == "none"@ && ss.tls_settings is None && ss.ws_settings is None
        },
        ServerModel::Trojan(t) => {
            &&& o.protocol@ == "trojan"@
            &&& o.settings.vnext is None
            &&& o.settings.servers matches Some(sv) && sv@.len() == 1 && sv@[0].address@
                == t.address && sv@[0].port == t.port && sv@[0].password@ == t.password
            &&& o.stream_settings matches Some(ss) && ss.security@ == "tls"@ && (
            ss.tls_settings matches Some(tls) && tls.server_name@ == t.sni && tls.allow_insecure
                == t.allow_insecure && tls.allow_insecure_ciphers == t.allow_insecure) && if t.network
                == "ws"@ {
                ss.network@ == "ws"@ && (ss.ws_settings matches Some(ws) && ws.path@ == t.path
                    && ws.headers.host@ == t.sni)
            } else {
                ss.network@ == "tcp"@ && ss.ws_settings is None
            }
        },
    }
}

impl ServerType {
    /// The proxy outbound that routes through this server.
    pub fn to_outbound(&self) -> (r: Outbound)
        ensures
            is_outbound_for(r, self@),
    {
        match self {
            ServerType::Trojan(server) => {
                let mut servers: Vec<ServerTrojan> = Vec::new();
                servers.push(
                    ServerTrojan {
                        address: server.address.clone(),
                        port: server.port,
                        password: server.password.clone(),
                    },
                );
                let ws = "ws".to_owned();
                let is_ws = server.network == ws;
                let ws_settings = if is_ws {
                    Some(
                        WSSettings {
                            path: server.path.clone(),
                            headers: WSSettingsHeaders { host: server.sni.clone() },
                        },
                    )
                } else {
                    None
                };
                Outbound {
                    mux: None,
                    protocol: "trojan".to_owned(),
                    settings: OutboundSettings { servers: Some(servers), vnext: None },
                    stream_settings: Some(
                        StreamSettings {
                            network: if is_ws {
                                ws
                            } else {
                                "tcp".to_owned()
                            },
                            security: "tls".to_owned(),
                            tls_settings: Some(
                                TLSSettings {
                                    server_name: server.sni.clone(),
                                    allow_insecure: server.allow_insecure,
                                    allow_insecure_ciphers: server.allow_insecure,
                                },
                            ),
                            ws_settings,
                        },
                    ),
                    tag: "proxy".to_owned(),
                }
            },
            ServerType::Vmess(server) => {
                let mut users: Vec<User> = Vec::new();
                users.push(
                    User {
                        id: server.user_id.clone(),
                        alter_id: server.alter_id,
                        security: "aes-128-gcm".to_owned(),
                    },
                );
                let mut vnext: Vec<Vnext> = Vec::new();
                vnext.push(Vnext { address: server.address.clone(), port: server.port, users });
                Outbound {
                    mux: None,
                    protocol: "vmess".to_owned(),
                    tag: "proxy".to_owned(),
                    settings: OutboundSettings { vnext: Some(vnext), servers: None },
                    stream_settings: Some(
                        StreamSettings {
                            network: "tcp".to_owned(),
                            security: "none".to_owned(),
                            tls_settings: None,
                            ws_settings: None,
                        },
                    ),
                }
            },
        }
    }
}

/// The string members that make a vmess JSON object well formed: all its
/// fields present, a non-empty address, a port and a numeric alter id.
pub open spec fn vmess_members_well_formed(m: Map<Seq<char>, Seq<char>>) -> bool {
    &&& m.contains_key("v"@) && m.contains_key("ps"@) && m.contains_key("add"@)
    &&& m.contains_key("port"@) && m.contains_key("id"@) && m.contains_key("aid"@)
    &&& m.contains_key("net"@) && m.contains_key("type"@) && m.contains_key("host"@)
    &&& m.contains_key("path"@) && m.contains_key("tls"@)
    &&& m["add"@].len() > 0
    &&& port_number(m["port"@]) is Some
    &&& alter_id_number(m["aid"@]) is Some
}

/// A vmess entry whose payload decodes to a well-formed JSON object parses
/// to a server whose address, port, user id and alter id are the ones
/// encoded in that object.
pub proof fn lemma_vmess_fields(payload: Seq<char>, bytes: Seq<u8>, members: Map<Seq<char>, Seq<char>>)
    requires
        base64_decoded(encode_utf8(payload)) == Some(bytes),
        valid_utf8(bytes),
        json_object_strings(decode_utf8(bytes)) == Some(members),
        vmess_members_well_formed(members),
    ensures
        parse_entry(seq!['v', 'm', 'e', 's', 's', ':', '/', '/'] + payload) matches Ok(
            ServerModel::Vmess(m),
        ) && m.address == members["add"@] && Some(m.port) == port_number(members["port"@])
            && m.user_id == members["id"@] && Some(m.alter_id) == alter_id_number(members["aid"@]),
{
    let entry = seq!['v', 'm', 'e', 's', 's', ':', '/', '/'] + payload;
    crate::text::lemma_first_index(entry, ':', 5);
    reveal_strlit("vmess");
    assert(entry.subrange(0, 5) =~= "vmess"@);
    assert(entry.subrange(8, entry.len() as int) =~= payload);
}

} // verus!
