use vstd::prelude::*;
use vstd::string::*;

use crate::errors::{Error, ErrorKind};
use crate::server::{is_outbound_for, ServerType};

verus! {

/// Multiplexing options of an outbound.
#[derive(Debug)]
pub struct Mux {
    pub enabled: bool,
    pub concurrency: i64,
}

/// A vmess user: its id, alter id and cipher.
#[derive(Debug)]
pub struct User {
    pub id: String,
    pub alter_id: u32,
    pub security: String,
}

/// A vmess upstream target.
#[derive(Debug)]
pub struct Vnext {
    pub address: String,
    pub users: Vec<User>,
    pub port: u16,
}

/// A trojan upstream target.
#[derive(Debug)]
pub struct ServerTrojan {
    pub address: String,
    pub port: u16,
    pub password: String,
}

/// Upstream targets: `vnext` for vmess, `servers` for trojan.
#[derive(Debug)]
pub struct OutboundSettings {
    pub vnext: Option<Vec<Vnext>>,
    pub servers: Option<Vec<ServerTrojan>>,
}

#[derive(Debug)]
pub struct TLSSettings {
    pub server_name: String,
    pub allow_insecure_ciphers: bool,
    pub allow_insecure: bool,
}

#[derive(Debug)]
pub struct WSSettingsHeaders {
    pub host: String,
}

/// Websocket transport settings.
#[derive(Debug)]
pub struct WSSettings {
    pub path: String,
    pub headers: WSSettingsHeaders,
}

/// Transport and security of an outbound.
#[derive(Debug)]
pub struct StreamSettings {
    pub network: String,
    pub security: String,
    pub tls_settings: Option<TLSSettings>,
    pub ws_settings: Option<WSSettings>,
}

/// An outbound route of the daemon.
#[derive(Debug)]
pub struct Outbound {
    pub mux: Option<Mux>,
    pub protocol: String,
    pub stream_settings: Option<StreamSettings>,
    pub tag: String,
    pub settings: OutboundSettings,
}

/// The address an outbound's settings lead to: the first vmess target's,
/// else the first trojan target's, else `none`.
pub open spec fn settings_address(s: OutboundSettings) -> Seq<char> {
    match s.vnext {
        Some(v) if v@.len() > 0 => v@[0].address@,
        _ => match s.servers {
            Some(v) if v@.len() > 0 => v@[0].address@,
            _ => "none"@,
        },
    }
}

impl OutboundSettings {
    /// The address these settings lead to (see [`settings_address`]).
    pub fn address(&self) -> (r: String)
        ensures
            r@ == settings_address(*self),
    {
        if let Some(v) = &self.vnext {
            if v.len() > 0 {
                return v[0].address.clone();
            }
        }
        if let Some(v) = &self.servers {
            if v.len() > 0 {
                return v[0].address.clone();
            }
        }
        "none".to_owned()
    }
}

/// The content of an outbound: its JSON text as it was read, or one this
/// library built.
#[derive(Debug)]
pub enum OutboundBody {
    Document(String),
    Synthesized(Outbound),
}

/// An element of `outbounds`: its tag and its content.
#[derive(Debug)]
pub struct OutboundEntry {
    pub tag: String,
    pub body: OutboundBody,
}

/// The daemon's configuration. Every section but the outbounds is carried
/// as the JSON text it was read from (`None` when the document lacks it),
/// and so is every other top-level member, with its key.
#[derive(Debug)]
pub struct Config {
    pub filepath: String,
    pub log: Option<String>,
    pub inbounds: Option<String>,
    pub outbounds: Vec<OutboundEntry>,
    pub dns: Option<String>,
    pub routing: Option<String>,
    pub transport: Option<String>,
    pub others: Vec<(String, String)>,
}

pub open spec fn is_proxy(e: OutboundEntry) -> bool {
    e.tag@ == "proxy"@
}

pub open spec fn has_proxy(outbounds: Seq<OutboundEntry>) -> bool {
    exists|i: int| 0 <= i < outbounds.len() && is_proxy(#[trigger] outbounds[i])
}

/// `after` is `before` with every outbound tagged `proxy` routed through
/// `server`, and everything else as it was.
pub open spec fn applied(before: Config, after: Config, server: ServerType) -> bool {
    &&& after.filepath == before.filepath
    &&& after.log == before.log
    &&& after.inbounds == before.inbounds
    &&& after.dns == before.dns
    &&& after.routing == before.routing
    &&& after.transport == before.transport
    &&& after.others@ == before.others@
    &&& after.outbounds@.len() == before.outbounds@.len()
    &&& forall|i: int|
        0 <= i < before.outbounds@.len() ==> if is_proxy(#[trigger] before.outbounds@[i]) {
            after.outbounds@[i].tag@ == "proxy"@ && (after.outbounds@[i].body matches OutboundBody::Synthesized(
                o,
            ) && is_outbound_for(o, server@))
        } else {
            after.outbounds@[i] == before.outbounds@[i]
        }
}

impl Config {
    /// Routes the outbound tagged `proxy` through `server`. Fails, changing
    /// nothing, when no outbound carries that tag.
    pub fn use_server(&mut self, server: &ServerType) -> (r: Result<(), Error>)
        ensures
            r is Ok <==> has_proxy(old(self).outbounds@),
            r matches Err(e) ==> e.kind == ErrorKind::ProxyOutboundNotFound && final(self).outbounds@
                == old(self).outbounds@,
            applied(*old(self), *final(self), *server),
    {
        let proxy = "proxy".to_owned();
        let mut found = false;
        let mut i: usize = 0;
        while i < self.outbounds.len()
            invariant
                0 <= i <= self.outbounds@.len(),
                self.outbounds@.len() == old(self).outbounds@.len(),
                self.filepath == old(self).filepath,
                self.log == old(self).log,
                self.inbounds == old(self).inbounds,
                self.dns == old(self).dns,
                self.routing == old(self).routing,
                self.transport == old(self).transport,
                self.others == old(self).others,
                proxy@ == "proxy"@,
                found <==> exists|j: int| 0 <= j < i && is_proxy(#[trigger] old(self).outbounds@[j]),
                forall|j: int|
                    0 <= j < i ==> if is_proxy(#[trigger] old(self).outbounds@[j]) {
                        self.outbounds@[j].tag@ == "proxy"@ && (self.outbounds@[j].body matches OutboundBody::Synthesized(
                            o,
                        ) && is_outbound_for(o, server@))
                    } else {
                        self.outbounds@[j] == old(self).outbounds@[j]
                    },
                forall|j: int| i <= j < self.outbounds@.len() ==> self.outbounds@[j] == old(self).outbounds@[j],
            decreases old(self).outbounds@.len() - i,
        {
            if self.outbounds[i].tag == proxy {
                let tag = proxy.clone();
                self.outbounds[i] = OutboundEntry {
                    tag,
                    body: OutboundBody::Synthesized(server.to_outbound()),
                };
                found = true;
            }
            i = i + 1;
        }
        if !found {
            proof {
                assert(self.outbounds@ =~= old(self).outbounds@);
            }
            return Err(
                Error::new(
                    ErrorKind::ProxyOutboundNotFound,
                    "the configuration has no outbound tagged proxy".to_owned(),
                ),
            );
        }
        Ok(())
    }
}

} // verus!
