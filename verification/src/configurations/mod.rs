//! Server configuration: listening addresses, IP restrictions, TLS and the
//! response encoding threshold.

use vstd::prelude::*;
use crate::text::str_eq;

verus! {

broadcast use vstd::string::group_string_axioms;

/// Which clients may connect.
pub enum WaterIpAddressesRestriction {
    /// Only these addresses may connect; every other one is turned away.
    OnlyAllowedIps(Vec<String>),
    /// These addresses are turned away; every other one may connect.
    BlacklistIps(Vec<String>),
}

/// The server configuration.
pub struct WaterServerConfigurations {
    /// The (address, port) pairs to listen on.
    pub addresses: Vec<(String, u16)>,
    /// Which clients may connect.
    pub restricted_ips: Option<WaterIpAddressesRestriction>,
    /// Where the public files are.
    pub public_files_path: String,
    /// Whether to skip looking for public files altogether.
    pub do_not_even_check_public_resources: bool,
    /// The certificate, key and optional CA bundle for TLS.
    pub tls_certificate: Option<TLSCertificate>,
    /// The ports that speak TLS.
    pub tls_ports: Vec<u16>,
    /// The request headers to keep: `None` keeps all of them, an empty
    /// list keeps a fixed set of common ones.
    pub headers_for_reading: Option<Vec<String>>,
    /// Responses at least this large are compressed when the client allows it.
    pub threshold_for_encoding_response: u64,
}

/// The paths of the TLS certificate, the private key and the CA bundle.
pub struct TLSCertificate {
    pub tls_cert: String,
    pub tls_key: String,
    pub tls_ca_bundle: Option<String>,
}

/// The (address, port) pairs as character sequences.
pub open spec fn address_views(a: Seq<(String, u16)>) -> Seq<(Seq<char>, u16)> {
    a.map_values(|p: (String, u16)| (p.0@, p.1))
}

/// The address list as character sequences.
pub open spec fn string_views(a: Seq<String>) -> Seq<Seq<char>> {
    a.map_values(|s: String| s@)
}

impl WaterServerConfigurations {
    /// The settings that every constructor shares, besides the addresses.
    pub open spec fn has_default_settings(&self) -> bool {
        &&& self.public_files_path@ == "./public"@
        &&& self.tls_certificate is None
        &&& self.restricted_ips is None
        &&& self.headers_for_reading is None
        &&& !self.do_not_even_check_public_resources
        &&& self.threshold_for_encoding_response == 4000000
        &&& self.tls_ports@ == seq![443u16]
    }

    fn with_addresses(addresses: Vec<(String, u16)>) -> (r: Self)
        ensures
            r.addresses@ == addresses@,
            r.has_default_settings(),
    {
        let mut tls_ports: Vec<u16> = Vec::new();
        tls_ports.push(443);
        assert(tls_ports@ =~= seq![443u16]);
        WaterServerConfigurations {
            addresses,
            public_files_path: "./public".to_string(),
            tls_certificate: None,
            restricted_ips: None,
            headers_for_reading: None,
            do_not_even_check_public_resources: false,
            threshold_for_encoding_response: 4000000,
            tls_ports,
        }
    }

    /// Port 80 on every interface, public files under `./public`, TLS on
    /// port 443, a 4 MB encoding threshold.
    pub fn default() -> (r: Self)
        ensures
            address_views(r.addresses@) == seq![("0.0.0.0"@, 80u16)],
            r.has_default_settings(),
    {
        let mut addresses: Vec<(String, u16)> = Vec::new();
        addresses.push(("0.0.0.0".to_string(), 80));
        let r = Self::with_addresses(addresses);
        assert(address_views(r.addresses@) =~= seq![("0.0.0.0"@, 80u16)]);
        r
    }

    /// Sets which clients may connect.
    pub fn set_restriction_to_ips(&mut self, roll: WaterIpAddressesRestriction)
        ensures
            final(self).restricted_ips == Some(roll),
            final(self).addresses == old(self).addresses,
            final(self).public_files_path == old(self).public_files_path,
            final(self).tls_certificate == old(self).tls_certificate,
            final(self).tls_ports == old(self).tls_ports,
            final(self).headers_for_reading == old(self).headers_for_reading,
            final(self).do_not_even_check_public_resources == old(self).do_not_even_check_public_resources,
            final(self).threshold_for_encoding_response == old(self).threshold_for_encoding_response,
    {
        self.restricted_ips = Some(roll);
    }

    /// Sets the certificate and key paths, and the optional CA bundle.
    pub fn set_tls_certificate(&mut self, cert_path: &str, key_path: &str, bundle: Option<String>)
        ensures
            final(self).tls_certificate matches Some(c) && c.tls_cert@ == cert_path@ && c.tls_key@ == key_path@
                && c.tls_ca_bundle == bundle,
            final(self).addresses == old(self).addresses,
            final(self).restricted_ips == old(self).restricted_ips,
            final(self).public_files_path == old(self).public_files_path,
            final(self).tls_ports == old(self).tls_ports,
            final(self).headers_for_reading == old(self).headers_for_reading,
            final(self).do_not_even_check_public_resources == old(self).do_not_even_check_public_resources,
            final(self).threshold_for_encoding_response == old(self).threshold_for_encoding_response,
    {
        self.tls_certificate = Some(
            TLSCertificate { tls_cert: cert_path.to_string(), tls_key: key_path.to_string(), tls_ca_bundle: bundle },
        );
    }

    /// Every given port on every interface, with the default settings.
    pub fn bind_multi_ports(ports: Vec<u16>) -> (r: Self)
        ensures
            address_views(r.addresses@) == ports@.map_values(|p: u16| ("0.0.0.0"@, p)),
            r.has_default_settings(),
    {
        let mut addresses: Vec<(String, u16)> = Vec::new();
        let mut i: usize = 0;
        while i < ports.len()
            invariant
                i <= ports@.len(),
                addresses@.len() == i,
                forall|j: int|
                    0 <= j < i ==> #[trigger] addresses@[j].0@ == "0.0.0.0"@ && addresses@[j].1 == ports@[j],
            decreases ports@.len() - i,
        {
            addresses.push(("0.0.0.0".to_string(), ports[i]));
            i = i + 1;
        }
        assert(address_views(addresses@) =~= ports@.map_values(|p: u16| ("0.0.0.0"@, p)));
        Self::bind_multi_addresses(addresses)
    }

    /// One port on every interface, with the default settings.
    pub fn bind_port(port: u16) -> (r: Self)
        ensures
            address_views(r.addresses@) == seq![("0.0.0.0"@, port)],
            r.has_default_settings(),
    {
        Self::bind("0.0.0.0", port)
    }

    /// One address and port, with the default settings.
    pub fn bind(link: &str, port: u16) -> (r: Self)
        ensures
            address_views(r.addresses@) == seq![(link@, port)],
            r.has_default_settings(),
    {
        let mut addresses: Vec<(String, u16)> = Vec::new();
        addresses.push((link.to_string(), port));
        let r = Self::with_addresses(addresses);
        assert(address_views(r.addresses@) =~= seq![(link@, port)]);
        r
    }

    /// The given addresses and ports, with the default settings.
    pub fn bind_multi_addresses(links: Vec<(String, u16)>) -> (r: Self)
        ensures
            r.addresses@ == links@,
            r.has_default_settings(),
    {
        Self::with_addresses(links)
    }

    /// Whether a client at `ip` may connect.
    pub fn accepts_ip(&self, ip: &str) -> (r: bool)
        ensures
            r == match self.restricted_ips {
                None => true,
                Some(WaterIpAddressesRestriction::OnlyAllowedIps(ips)) => string_views(ips@).contains(ip@),
                Some(WaterIpAddressesRestriction::BlacklistIps(ips)) => !string_views(ips@).contains(ip@),
            },
    {
        match &self.restricted_ips {
            None => true,
            Some(WaterIpAddressesRestriction::OnlyAllowedIps(ips)) => contains_string(ips, ip),
            Some(WaterIpAddressesRestriction::BlacklistIps(ips)) => !contains_string(ips, ip),
        }
    }

    /// Whether connections on `port` speak TLS.
    pub fn is_tls_port(&self, port: u16) -> (r: bool)
        ensures
            r == self.tls_ports@.contains(port),
    {
        let mut i: usize = 0;
        while i < self.tls_ports.len()
            invariant
                i <= self.tls_ports@.len(),
                forall|j: int| 0 <= j < i ==> self.tls_ports@[j] != port,
            decreases self.tls_ports@.len() - i,
        {
            if self.tls_ports[i] == port {
                return true;
            }
            i = i + 1;
        }
        false
    }
}

/// Whether the list holds a string equal to `s`.
fn contains_string(list: &Vec<String>, s: &str) -> (r: bool)
    ensures
        r == string_views(list@).contains(s@),
{
    let ghost v = string_views(list@);
    let mut i: usize = 0;
    while i < list.len()
        invariant
            i <= list@.len(),
            v == string_views(list@),
            v.len() == list@.len(),
            forall|j: int| 0 <= j < i ==> v[j] != s@,
        decreases list@.len() - i,
    {
        if str_eq(list[i].as_str(), s) {
            assert(v[i as int] == s@);
            return true;
        }
        i = i + 1;
    }
    false
}

} // verus!
