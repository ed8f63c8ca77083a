//! Subscription sources, the folding of fetched source bodies into one managed
//! block, and the classification of connectivity probes.
use vstd::prelude::*;
use crate::text::{chars_of, contains, contains_chars, matches_at, occurs_at};

verus! {

/// A named remote list of host entries that the user can switch on or off.
#[derive(Clone, Debug)]
pub struct HostSource {
    pub name: String,
    pub url: String,
    pub enabled: bool,
}

/// A source as plain values.
pub struct HostSourceView {
    pub name: Seq<char>,
    pub url: Seq<char>,
    pub enabled: bool,
}

impl View for HostSource {
    type V = HostSourceView;

    open spec fn view(&self) -> HostSourceView {
        HostSourceView { name: self.name@, url: self.url@, enabled: self.enabled }
    }
}

impl HostSource {
    /// A source with the given fields.
    pub fn new(name: &str, url: &str, enabled: bool) -> (r: HostSource)
        ensures
            r@ == (HostSourceView { name: name@, url: url@, enabled }),
    {
        HostSource { name: String::from_str(name), url: String::from_str(url), enabled }
    }

    /// A field-by-field copy.
    pub fn duplicate(&self) -> (r: HostSource)
        ensures
            r@ == self@,
    {
        HostSource { name: self.name.clone(), url: self.url.clone(), enabled: self.enabled }
    }
}

impl Default for HostSource {
    fn default() -> (r: HostSource)
        ensures
            r@ == (HostSourceView {
                name: "GitHub520"@,
                url: "https://raw.hellogithub.com/hosts"@,
                enabled: true,
            }),
    {
        HostSource::new("GitHub520", "https://raw.hellogithub.com/hosts", true)
    }
}

/// The outcome of probing one domain.
#[derive(Clone, Debug)]
pub struct ConnectivityTestResult {
    pub domain: String,
    pub success: bool,
    pub status_code: Option<u16>,
    pub response_time_ms: Option<u64>,
    pub error: Option<String>,
}

/// What a probe of a domain came back with.
#[derive(Debug)]
pub enum ProbeOutcome {
    /// The server answered with an HTTP status after `elapsed_ms` milliseconds.
    Responded { status: u16, elapsed_ms: u64 },
    /// No answer; `waited_ms` is absent when no request could be sent at all.
    Failed { waited_ms: Option<u64>, error: String },
}

pub open spec fn view_of_sources(v: Seq<HostSource>) -> Seq<HostSourceView> {
    v.map_values(|s: HostSource| s@)
}

pub open spec fn view_of_strings(v: Seq<String>) -> Seq<Seq<char>> {
    v.map_values(|s: String| s@)
}

pub open spec fn entry(name: Seq<char>, url: Seq<char>, enabled: bool) -> HostSourceView {
    HostSourceView { name, url, enabled }
}

/// The built-in sources, in order; only the first is enabled.
pub open spec fn default_sources_spec() -> Seq<HostSourceView> {
    seq![
        entry("GitHub520 (HelloGitHub)"@, "https://raw.hellogithub.com/hosts"@, true),
        entry("GitHub Hosts (GitCDN)"@, "https://hosts.gitcdn.top/hosts.txt"@, false),
        entry(
            "GitHub Fast Access"@,
            "https://raw.githubusercontent.com/namegenliang/fast-github-access/main/hosts.txt"@,
            false,
        ),
        entry(
            "Steam 社区加速 (完整)"@,
            "https://raw.githubusercontent.com/Clov614/SteamHostSync/main/Hosts"@,
            false,
        ),
        entry(
            "Steam 社区加速 (Steam only)"@,
            "https://raw.githubusercontent.com/Clov614/SteamHostSync/main/Hosts_steam"@,
            false,
        ),
        entry(
            "Docker Registry 加速"@,
            "https://raw.githubusercontent.com/Clov614/SteamHostSync/main/Hosts"@,
            false,
        ),
        entry(
            "Google & Microsoft 服务"@,
            "https://raw.githubusercontent.com/laucyun/hosts/master/hosts"@,
            false,
        ),
        entry(
            "GitHub520 (镜像加速)"@,
            "https://raw.sevencdn.com/521xueweihan/GitHub520/main/hosts"@,
            false,
        ),
        entry(
            "Steam 社区 (镜像加速)"@,
            "https://raw.sevencdn.com/Clov614/SteamHostSync/main/Hosts_steam"@,
            false,
        ),
    ]
}

/// The built-in subscription sources.
pub fn get_default_sources() -> (r: Vec<HostSource>)
    ensures
        view_of_sources(r@) == default_sources_spec(),
{
    let mut v: Vec<HostSource> = Vec::new();
    v.push(HostSource::new("GitHub520 (HelloGitHub)", "https://raw.hellogithub.com/hosts", true));
    v.push(HostSource::new("GitHub Hosts (GitCDN)", "https://hosts.gitcdn.top/hosts.txt", false));
    v.push(
        HostSource::new(
            "GitHub Fast Access",
            "https://raw.githubusercontent.com/namegenliang/fast-github-access/main/hosts.txt",
            false,
        ),
    );
    v.push(
        HostSource::new(
            "Steam 社区加速 (完整)",
            "https://raw.githubusercontent.com/Clov614/SteamHostSync/main/Hosts",
            false,
        ),
    );
    v.push(
        HostSource::new(
            "Steam 社区加速 (Steam only)",
            "https://raw.githubusercontent.com/Clov614/SteamHostSync/main/Hosts_steam",
            false,
        ),
    );
    v.push(
        HostSource::new(
            "Docker Registry 加速",
            "https://raw.githubusercontent.com/Clov614/SteamHostSync/main/Hosts",
            false,
        ),
    );
    v.push(
        HostSource::new(
            "Google & Microsoft 服务",
            "https://raw.githubusercontent.com/laucyun/hosts/master/hosts",
            false,
        ),
    );
    v.push(
        HostSource::new(
            "GitHub520 (镜像加速)",
            "https://raw.sevencdn.com/521xueweihan/GitHub520/main/hosts",
            false,
        ),
    );
    v.push(
        HostSource::new(
            "Steam 社区 (镜像加速)",
            "https://raw.sevencdn.com/Clov614/SteamHostSync/main/Hosts_steam",
            false,
        ),
    );
    assert(view_of_sources(v@) =~= default_sources_spec());
    v
}

/// The line that introduces a source's body in the managed block.
pub open spec fn banner(name: Seq<char>) -> Seq<char> {
    "\n# === "@ + name + " ===\n"@
}

/// What one source adds: its banner, its body and a newline when it is enabled and
/// its fetch succeeded; nothing otherwise.
pub open spec fn source_contribution(s: HostSourceView, body: Option<String>) -> Seq<char> {
    match body {
        Some(b) => if s.enabled {
            banner(s.name) + b@ + "\n"@
        } else {
            Seq::empty()
        },
        None => Seq::empty(),
    }
}

/// The contributions of the first `n` sources, in order.
pub open spec fn aggregate_upto(
    sources: Seq<HostSource>,
    fetched: Seq<Option<String>>,
    n: int,
) -> Seq<char>
    decreases n,
{
    if n <= 0 {
        Seq::empty()
    } else {
        aggregate_upto(sources, fetched, n - 1) + source_contribution(
            sources[n - 1]@,
            fetched[n - 1],
        )
    }
}

proof fn lemma_aggregate_upto_empty(
    sources: Seq<HostSource>,
    fetched: Seq<Option<String>>,
    n: int,
)
    requires
        n <= sources.len() == fetched.len(),
        forall|i: int| 0 <= i < n ==> !sources[i].enabled || fetched[i] is None,
    ensures
        aggregate_upto(sources, fetched, n) == Seq::<char>::empty(),
    decreases n,
{
    if n > 0 {
        lemma_aggregate_upto_empty(sources, fetched, n - 1);
        assert(Seq::<char>::empty() + Seq::<char>::empty() =~= Seq::<char>::empty());
    }
}

/// When every source is disabled or failed to fetch, the aggregate is empty.
pub proof fn lemma_aggregate_empty_without_usable_source(
    sources: Seq<HostSource>,
    fetched: Seq<Option<String>>,
)
    requires
        sources.len() == fetched.len(),
        forall|i: int| 0 <= i < sources.len() ==> !sources[i].enabled || fetched[i] is None,
    ensures
        aggregate_upto(sources, fetched, sources.len() as int) == Seq::<char>::empty(),
{
    lemma_aggregate_upto_empty(sources, fetched, sources.len() as int);
}

/// Folds fetched bodies into one text. `fetched[i]` is what fetching `sources[i]`
/// gave: `None` when the fetch failed or was not made. Disabled sources and failed
/// fetches add nothing; the others add a banner, the body and a newline, in source
/// order.
pub fn aggregate_hosts(sources: &Vec<HostSource>, fetched: &Vec<Option<String>>) -> (r: String)
    requires
        sources.len() == fetched.len(),
    ensures
        r@ == aggregate_upto(sources@, fetched@, sources.len() as int),
{
    let mut out = String::new();
    let mut i: usize = 0;
    while i < sources.len()
        invariant
            i <= sources.len() == fetched.len(),
            out@ == aggregate_upto(sources@, fetched@, i as int),
        decreases sources.len() - i,
    {
        let s = &sources[i];
        match &fetched[i] {
            Some(body) => {
                if s.enabled {
                    out.append("\n# === ");
                    out.append(s.name.as_str());
                    out.append(" ===\n");
                    out.append(body.as_str());
                    out.append("\n");
                }
            },
            None => {},
        }
        assert(out@ =~= aggregate_upto(sources@, fetched@, i + 1));
        i = i + 1;
    }
    out
}

/// The address a probe of `domain` requests: the domain itself when it already
/// starts with "http", else the domain behind "https://".
pub open spec fn probe_url_spec(domain: Seq<char>) -> Seq<char> {
    if occurs_at(domain, "http"@, 0) {
        domain
    } else {
        "https://"@ + domain
    }
}

/// The address a probe of `domain` requests.
pub fn probe_url(domain: &str) -> (r: String)
    ensures
        r@ == probe_url_spec(domain@),
{
    let d = chars_of(domain);
    let scheme = chars_of("http");
    proof {
        reveal_strlit("http");
    }
    if scheme.len() <= d.len() && matches_at(&d, &scheme, 0) {
        String::from_str(domain)
    } else {
        let mut r = String::from_str("https://");
        r.append(domain);
        r
    }
}

/// Turns a probe's outcome into its result: an HTTP answer below 500 counts as
/// reachable; a failure never does and carries no status.
pub fn classify_probe(domain: &str, outcome: ProbeOutcome) -> (r: ConnectivityTestResult)
    ensures
        r.domain@ == domain@,
        match outcome {
            ProbeOutcome::Responded { status, elapsed_ms } => {
                &&& r.success == (status < 500)
                &&& r.status_code == Some(status)
                &&& r.response_time_ms == Some(elapsed_ms)
                &&& r.error is None
            },
            ProbeOutcome::Failed { waited_ms, error } => {
                &&& !r.success
                &&& r.status_code is None
                &&& r.response_time_ms == waited_ms
                &&& r.error matches Some(e) && e@ == error@
            },
        },
{
    match outcome {
        ProbeOutcome::Responded { status, elapsed_ms } => ConnectivityTestResult {
            domain: String::from_str(domain),
            success: status < 500,
            status_code: Some(status),
            response_time_ms: Some(elapsed_ms),
            error: None,
        },
        ProbeOutcome::Failed { waited_ms, error } => ConnectivityTestResult {
            domain: String::from_str(domain),
            success: false,
            status_code: None,
            response_time_ms: waited_ms,
            error: Some(error),
        },
    }
}

/// The well-known domains worth probing, in order.
pub open spec fn key_domains() -> Seq<Seq<char>> {
    seq![
        "github.com"@,
        "api.github.com"@,
        "raw.githubusercontent.com"@,
        "steamcommunity.com"@,
        "store.steampowered.com"@,
    ]
}

/// The members of `keys` that occur in `h` as substrings, in order.
pub open spec fn present_domains(keys: Seq<Seq<char>>, h: Seq<char>) -> Seq<Seq<char>>
    decreases keys.len(),
{
    if keys.len() == 0 {
        Seq::empty()
    } else {
        let rest = present_domains(keys.drop_last(), h);
        if contains(h, keys.last()) {
            rest.push(keys.last())
        } else {
            rest
        }
    }
}

/// The well-known domains that appear anywhere in `hosts_content`, in their fixed
/// order.
pub fn extract_test_domains(hosts_content: &str) -> (r: Vec<String>)
    ensures
        view_of_strings(r@) == present_domains(key_domains(), hosts_content@),
{
    let h = chars_of(hosts_content);
    let keys: Vec<&str> = vec![
        "github.com",
        "api.github.com",
        "raw.githubusercontent.com",
        "steamcommunity.com",
        "store.steampowered.com",
    ];
    assert(keys@.map_values(|k: &str| k@) =~= key_domains());
    let mut domains: Vec<String> = Vec::new();
    let mut i: usize = 0;
    while i < keys.len()
        invariant
            i <= keys.len(),
            keys@.map_values(|k: &str| k@) == key_domains(),
            h@ == hosts_content@,
            view_of_strings(domains@) == present_domains(
                key_domains().subrange(0, i as int),
                hosts_content@,
            ),
        decreases keys.len() - i,
    {
        let k = keys[i];
        let kc = chars_of(k);
        assert(key_domains().subrange(0, i + 1).drop_last() =~= key_domains().subrange(
            0,
            i as int,
        ));
        assert(key_domains()[i as int] == k@);
        if contains_chars(&h, &kc) {
            domains.push(String::from_str(k));
        }
        assert(view_of_strings(domains@) =~= present_domains(
            key_domains().subrange(0, i + 1),
            hosts_content@,
        ));
        i = i + 1;
    }
    assert(key_domains().subrange(0, keys.len() as int) =~= key_domains());
    domains
}

} // verus!
