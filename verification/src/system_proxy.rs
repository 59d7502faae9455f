//! The proxy through which the online service is reached.
use vstd::prelude::*;

use crate::asr;
use crate::qwen_local;

verus! {

/// The address of the online service.
pub const SERVICE_URL: &'static str = "https://speech.platform.bing.com/";

/// The environment variables with which the user sets a proxy. They always win.
pub const PROXY_VARIABLES: [&'static str; 4] = [
    "https_proxy",
    "HTTPS_PROXY",
    "all_proxy",
    "ALL_PROXY",
];

/// The proxies that the system has configured for each scheme, the hosts that are reached without
/// one, and whether hosts with a simple name are.
#[derive(Debug)]
pub struct ProxySettings {
    pub proxies: Vec<(String, String)>,
    pub whitelist: Vec<String>,
    pub exclude_simple: bool,
}

/// The schemes and their proxies.
pub open spec fn proxies_of(proxies: Seq<(String, String)>) -> Seq<(Seq<char>, Seq<char>)> {
    Seq::new(proxies.len(), |i: int| (proxies[i].0@, proxies[i].1@))
}

/// The proxy that is used for an address under the given settings.
pub uninterp spec fn proxy_for_url(
    proxies: Seq<(Seq<char>, Seq<char>)>,
    whitelist: Seq<Seq<char>>,
    exclude_simple: bool,
    url: Seq<char>,
) -> Option<Seq<char>>;

/// Calls `proxy_cfg::ProxyConfig::get_proxy_for_url` for an address, which `url::Url::parse` reads.
/// The result depends on the settings and the address alone; which proxy that is, is not stated.
/// There is none for a text that is not an address.
#[verifier::external_body]
fn get_proxy_for_url(settings: &ProxySettings, url: &str) -> (proxy: Option<String>)
    ensures
        qwen_local::optional_text(proxy) == proxy_for_url(
            proxies_of(settings.proxies@),
            asr::strings_of(settings.whitelist@),
            settings.exclude_simple,
            url@,
        ),
{
    let mut config = proxy_cfg::ProxyConfig::default();
    config.proxies = settings.proxies.iter().cloned().collect();
    config.whitelist = settings.whitelist.iter().cloned().collect();
    config.exclude_simple = settings.exclude_simple;
    let url = url::Url::parse(url).ok()?;
    config.get_proxy_for_url(&url)
}

/// One of the variables holds something.
pub open spec fn any_set(values: Seq<Option<String>>) -> bool {
    exists|i: int|
        0 <= i < values.len() && #[trigger] values[i] is Some && values[i].unwrap()@.len() > 0
}

fn is_any_set(values: &[Option<String>]) -> (found: bool)
    ensures
        found == any_set(values@),
{
    let mut i: usize = 0;
    while i < values.len()
        invariant
            i <= values.len(),
            forall|j: int|
                0 <= j < i ==> !(#[trigger] values@[j] is Some && values@[j].unwrap()@.len() > 0),
        decreases values.len() - i,
    {
        if let Some(value) = &values[i] {
            if !value.as_str().is_empty() {
                assert(values@[i as int] is Some && values@[i as int].unwrap()@.len() > 0);
                return true;
            }
        }
        i += 1;
    }
    false
}

/// The proxy that is set, given what the system has configured for the service.
pub open spec fn chosen_proxy(values: Seq<Option<String>>, configured: Option<Seq<char>>) -> Option<
    Seq<char>,
> {
    if any_set(values) {
        None
    } else {
        match configured {
            Some(proxy) => if proxy.len() > 0 {
                Some(proxy)
            } else {
                None
            },
            None => None,
        }
    }
}

/// The proxy that is set, given the values of the variables and what the system has configured
/// for the service: none when the user has set one, or when there is none.
pub fn choose_proxy(values: &[Option<String>], configured: Option<String>) -> (proxy: Option<String>)
    ensures
        qwen_local::optional_text(proxy) == chosen_proxy(
            values@,
            qwen_local::optional_text(configured),
        ),
{
    if is_any_set(values) {
        return None;
    }
    match configured {
        Some(proxy) => if proxy.as_str().is_empty() {
            None
        } else {
            Some(proxy)
        },
        None => None,
    }
}

/// The proxy that is set under the settings of the system, when there are any.
pub fn proxy_to_set(values: &[Option<String>], settings: Option<ProxySettings>) -> (proxy: Option<
    String,
>)
    ensures
        qwen_local::optional_text(proxy) == chosen_proxy(
            values@,
            match settings {
                Some(settings) => proxy_for_url(
                    proxies_of(settings.proxies@),
                    asr::strings_of(settings.whitelist@),
                    settings.exclude_simple,
                    SERVICE_URL@,
                ),
                None => None,
            },
        ),
{
    let configured = match settings {
        Some(settings) => get_proxy_for_url(&settings, SERVICE_URL),
        None => None,
    };
    choose_proxy(values, configured)
}

/// A proxy that the user has set is never replaced.
pub proof fn a_proxy_of_the_user_wins(values: Seq<Option<String>>, configured: Option<Seq<char>>, i: int)
    requires
        0 <= i < values.len(),
        values[i] is Some,
        values[i].unwrap()@.len() > 0,
    ensures
        chosen_proxy(values, configured) is None,
{
}

} // verus!
