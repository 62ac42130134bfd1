//! The fixed endpoints of the updater and the URLs of the provider's REST
//! API, built by plain concatenation.

use vstd::prelude::*;

verus! {

/// Scheme, separator and host of every provider API URL.
pub open spec fn api_base() -> Seq<char> {
    "https"@ + "://"@ + "api.cloudflare.com"@
}

/// The echo endpoint that answers with the caller's public IPv4 address.
pub fn public_ipv4_resolver_host() -> (r: &'static str)
    ensures
        r@ == "https://v4.ident.me"@,
{
    "https://v4.ident.me"
}

/// The echo endpoint that answers with the caller's public IPv6 address.
pub fn public_ipv6_resolver_host() -> (r: &'static str)
    ensures
        r@ == "https://v6.ident.me"@,
{
    "https://v6.ident.me"
}

/// `protocol://hostpath`, the shape of every URL the updater issues.
pub fn build_url(protocol: &str, host: &str, path: &str) -> (r: String)
    ensures
        r@ == protocol@ + "://"@ + host@ + path@,
{
    let mut url = protocol.to_owned();
    url.append("://");
    url.append(host);
    url.append(path);
    url
}

/// URL of the zone listing, to be queried by zone name and active status.
pub fn zones_url() -> (r: String)
    ensures
        r@ == api_base() + "/client/v4/zones"@,
{
    let url = build_url("https", "api.cloudflare.com", "/client/v4/zones");
    proof {
        assert(url@ =~= api_base() + "/client/v4/zones"@);
    }
    url
}

/// URL that lists the records of a zone, and also receives record
/// creations.
pub fn records_url(zone_id: &str) -> (r: String)
    ensures
        r@ == api_base() + "/client/v4/zones/"@ + zone_id@ + "/dns_records"@,
{
    let mut url = build_url("https", "api.cloudflare.com", "/client/v4/zones/");
    url.append(zone_id);
    url.append("/dns_records");
    proof {
        assert(url@ =~= api_base() + "/client/v4/zones/"@ + zone_id@ + "/dns_records"@);
    }
    url
}

/// URL of one record of a zone, the target of a partial update.
pub fn record_url(zone_id: &str, record_id: &str) -> (r: String)
    ensures
        r@ == api_base() + "/client/v4/zones/"@ + zone_id@ + "/dns_records/"@ + record_id@,
{
    let mut url = build_url("https", "api.cloudflare.com", "/client/v4/zones/");
    url.append(zone_id);
    url.append("/dns_records/");
    url.append(record_id);
    proof {
        assert(url@ =~= api_base() + "/client/v4/zones/"@ + zone_id@ + "/dns_records/"@
            + record_id@);
    }
    url
}

} // verus!
