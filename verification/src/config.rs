//! Client configuration: an immutable parameter bundle and the builder that
//! assembles it. `build` fails on the first required field that was never
//! supplied, in declaration order.

use vstd::prelude::*;

use crate::error::ConfigError;

verus! {

/// Immutable parameter bundle for a client.
///
/// The remote address is kept as its textual form and the trust anchor as
/// its raw certificate bytes; the I/O layer parses them when it connects.
#[derive(Clone, Debug)]
pub struct ClientConfig {
    pub remote_address: String,
    /// Selects the default local binding: `0.0.0.0:0` when true, `[::]:0`
    /// when false.
    pub ipv4_type: bool,
    /// Server name for SNI and certificate validation.
    pub domain: String,
    /// Trust anchor certificate, DER bytes.
    pub cert: Vec<u8>,
    pub keep_alive_interval_ms: u64,
    /// Per-connection cap on concurrently open bidirectional streams.
    pub max_bi_streams: usize,
}

/// Collects the configuration fields one by one; `build` checks that none
/// is missing.
#[derive(Clone, Debug)]
pub struct ClientConfigBuilder {
    pub remote_address: Option<String>,
    pub ipv4_type: Option<bool>,
    pub domain: Option<String>,
    pub cert: Option<Vec<u8>>,
    pub keep_alive_interval_ms: Option<u64>,
    pub max_bi_streams: Option<usize>,
}

impl Default for ClientConfigBuilder {
    fn default() -> (r: Self)
        ensures
            r.remote_address is None,
            r.ipv4_type is None,
            r.domain is None,
            r.cert is None,
            r.keep_alive_interval_ms is None,
            r.max_bi_streams is None,
    {
        ClientConfigBuilder {
            remote_address: None,
            ipv4_type: None,
            domain: None,
            cert: None,
            keep_alive_interval_ms: None,
            max_bi_streams: None,
        }
    }
}

impl ClientConfigBuilder {
    /// Whether every required field has been supplied.
    pub open spec fn complete(self) -> bool {
        &&& self.remote_address is Some
        &&& self.ipv4_type is Some
        &&& self.domain is Some
        &&& self.cert is Some
        &&& self.keep_alive_interval_ms is Some
        &&& self.max_bi_streams is Some
    }

    /// The error `build` reports: the first missing field in declaration
    /// order.
    pub open spec fn first_missing(self) -> ConfigError
        recommends
            !self.complete(),
    {
        if self.remote_address is None {
            ConfigError::MissingRemoteAddress
        } else if self.ipv4_type is None {
            ConfigError::MissingIpv4Type
        } else if self.domain is None {
            ConfigError::MissingDomain
        } else if self.cert is None {
            ConfigError::MissingCert
        } else if self.keep_alive_interval_ms is None {
            ConfigError::MissingKeepAliveInterval
        } else {
            ConfigError::MissingMaxBiStreams
        }
    }

    pub fn with_remote_address(&mut self, remote_address: String) -> (r: &mut Self)
        ensures
            *r == (ClientConfigBuilder { remote_address: Some(remote_address), ..*old(self) }),
            *final(self) == *final(r),
    {
        self.remote_address = Some(remote_address);
        self
    }

    pub fn with_ipv4_type(&mut self, ipv4_type: bool) -> (r: &mut Self)
        ensures
            *r == (ClientConfigBuilder { ipv4_type: Some(ipv4_type), ..*old(self) }),
            *final(self) == *final(r),
    {
        self.ipv4_type = Some(ipv4_type);
        self
    }

    pub fn with_domain(&mut self, domain: String) -> (r: &mut Self)
        ensures
            *r == (ClientConfigBuilder { domain: Some(domain), ..*old(self) }),
            *final(self) == *final(r),
    {
        self.domain = Some(domain);
        self
    }

    pub fn with_cert(&mut self, cert: Vec<u8>) -> (r: &mut Self)
        ensures
            *r == (ClientConfigBuilder { cert: Some(cert), ..*old(self) }),
            *final(self) == *final(r),
    {
        self.cert = Some(cert);
        self
    }

    pub fn with_keep_alive_interval(&mut self, keep_alive_interval_ms: u64) -> (r: &mut Self)
        ensures
            *r == (ClientConfigBuilder {
                keep_alive_interval_ms: Some(keep_alive_interval_ms),
                ..*old(self)
            }),
            *final(self) == *final(r),
    {
        self.keep_alive_interval_ms = Some(keep_alive_interval_ms);
        self
    }

    pub fn with_max_bi_streams(&mut self, max_bi_streams: usize) -> (r: &mut Self)
        ensures
            *r == (ClientConfigBuilder { max_bi_streams: Some(max_bi_streams), ..*old(self) }),
            *final(self) == *final(r),
    {
        self.max_bi_streams = Some(max_bi_streams);
        self
    }

    /// Assemble the configuration. Succeeds exactly when every field was
    /// supplied; otherwise reports the first missing field.
    pub fn build(self) -> (r: Result<ClientConfig, ConfigError>)
        ensures
            self.complete() <==> r is Ok,
            match r {
                Ok(c) => {
                    &&& self.remote_address == Some(c.remote_address)
                    &&& self.ipv4_type == Some(c.ipv4_type)
                    &&& self.domain == Some(c.domain)
                    &&& self.cert == Some(c.cert)
                    &&& self.keep_alive_interval_ms == Some(c.keep_alive_interval_ms)
                    &&& self.max_bi_streams == Some(c.max_bi_streams)
                },
                Err(e) => e == self.first_missing(),
            },
    {
        let ClientConfigBuilder {
            remote_address,
            ipv4_type,
            domain,
            cert,
            keep_alive_interval_ms,
            max_bi_streams,
        } = self;
        let remote_address = match remote_address {
            Some(v) => v,
            None => {
                return Err(ConfigError::MissingRemoteAddress);
            },
        };
        let ipv4_type = match ipv4_type {
            Some(v) => v,
            None => {
                return Err(ConfigError::MissingIpv4Type);
            },
        };
        let domain = match domain {
            Some(v) => v,
            None => {
                return Err(ConfigError::MissingDomain);
            },
        };
        let cert = match cert {
            Some(v) => v,
            None => {
                return Err(ConfigError::MissingCert);
            },
        };
        let keep_alive_interval_ms = match keep_alive_interval_ms {
            Some(v) => v,
            None => {
                return Err(ConfigError::MissingKeepAliveInterval);
            },
        };
        let max_bi_streams = match max_bi_streams {
            Some(v) => v,
            None => {
                return Err(ConfigError::MissingMaxBiStreams);
            },
        };
        Ok(ClientConfig {
            remote_address,
            ipv4_type,
            domain,
            cert,
            keep_alive_interval_ms,
            max_bi_streams,
        })
    }
}

} // verus!
