//! How a node is set up: which relay it uses, how its gossip membership is
//! sized, and the name of the topic every node starts on.
use vstd::prelude::*;

verus! {

/// The settings the host passes when it creates a node.
#[derive(Debug)]
pub struct NodeConfig {
    pub is_whale_node: bool,
    pub active_view_capacity: u32,
    pub passive_view_capacity: u32,
    pub relay_urls: Vec<String>,
}

/// The relay a node uses.
#[derive(Debug)]
pub enum RelayChoice {
    /// The relay at this URL only.
    Custom(String),
    /// No relay at all.
    Disabled,
    /// The default public relays.
    Default,
}

/// The relay URL used when only the EU relay is wanted.
pub open spec fn eu_relay_url() -> Seq<char> {
    "https://euw1-1.relay.iroh.network./"@
}

/// The relay a node uses: the `RELAY_URL` setting if present; else the EU
/// relay if `RELAY_EU_ONLY` is set; else the first relay of the node's
/// configuration; else none if `RELAY_DISABLED` is set; else the defaults.
pub open spec fn relay_choice_spec(
    relay_url_env: Option<Seq<char>>,
    eu_only: bool,
    configured: Seq<Seq<char>>,
    disabled: bool,
    r: RelayChoice,
) -> bool {
    match relay_url_env {
        Some(url) => r matches RelayChoice::Custom(u) && u@ == url,
        None => if eu_only {
            r matches RelayChoice::Custom(u) && u@ == eu_relay_url()
        } else if configured.len() > 0 {
            r matches RelayChoice::Custom(u) && u@ == configured[0]
        } else if disabled {
            r is Disabled
        } else {
            r is Default
        },
    }
}

/// The relay a node uses; see `relay_choice_spec`. `relay_url_env`,
/// `eu_only` and `disabled` are the `RELAY_URL`, `RELAY_EU_ONLY` and
/// `RELAY_DISABLED` settings of the environment.
pub fn choose_relay(relay_url_env: Option<String>, eu_only: bool, config: &NodeConfig, disabled: bool) -> (r: RelayChoice)
    ensures
        relay_choice_spec(
            match relay_url_env { Some(u) => Some(u@), None => None },
            eu_only,
            config.relay_urls@.map_values(|u: String| u@),
            disabled,
            r,
        ),
{
    match relay_url_env {
        Some(url) => RelayChoice::Custom(url),
        None => {
            if eu_only {
                RelayChoice::Custom("https://euw1-1.relay.iroh.network./".to_owned())
            } else if config.relay_urls.len() > 0 {
                RelayChoice::Custom(config.relay_urls[0].clone())
            } else if disabled {
                RelayChoice::Disabled
            } else {
                RelayChoice::Default
            }
        },
    }
}

/// Which relay a node uses, in order of precedence: a `RELAY_URL` setting
/// always wins; without it, `RELAY_EU_ONLY` gives the EU relay whatever relays
/// the node is configured with; then the first configured relay; then no
/// relay if `RELAY_DISABLED` is set; then the default relays.
pub proof fn law_relay_precedence(
    relay_url_env: Option<Seq<char>>,
    eu_only: bool,
    configured: Seq<Seq<char>>,
    disabled: bool,
    r: RelayChoice,
)
    requires
        relay_choice_spec(relay_url_env, eu_only, configured, disabled, r),
    ensures
        relay_url_env matches Some(url) ==> (r matches RelayChoice::Custom(u) && u@ == url),
        relay_url_env is None && eu_only ==> (r matches RelayChoice::Custom(u) && u@ == "https://euw1-1.relay.iroh.network./"@),
        relay_url_env is None && !eu_only && configured.len() > 0 ==> (r matches RelayChoice::Custom(u) && u@ == configured[0]),
        relay_url_env is None && !eu_only && configured.len() == 0 && disabled ==> r is Disabled,
        relay_url_env is None && !eu_only && configured.len() == 0 && !disabled ==> r is Default,
{
}

/// How a node's gossip membership views are sized.
#[derive(Debug)]
pub struct MembershipPlan {
    /// Active and passive view capacities, or `None` for the defaults.
    pub view_capacities: Option<(usize, usize)>,
    /// Seconds between shuffles of the passive view.
    pub shuffle_interval_secs: u64,
}

/// How a node's gossip membership is sized: a whale node uses the configured
/// view capacities, others the defaults; every node shuffles every 5 seconds.
pub fn membership_plan(config: &NodeConfig) -> (p: MembershipPlan)
    ensures
        p.shuffle_interval_secs == 5,
        config.is_whale_node ==> p.view_capacities == Some((config.active_view_capacity as usize, config.passive_view_capacity as usize)),
        !config.is_whale_node ==> p.view_capacities is None,
{
    if config.is_whale_node {
        MembershipPlan {
            view_capacities: Some((config.active_view_capacity as usize, config.passive_view_capacity as usize)),
            shuffle_interval_secs: 5,
        }
    } else {
        MembershipPlan { view_capacities: None, shuffle_interval_secs: 5 }
    }
}

/// Whether `c` is an ASCII letter or digit.
pub open spec fn is_ascii_alphanumeric(c: char) -> bool {
    ('a' <= c && c <= 'z') || ('A' <= c && c <= 'Z') || ('0' <= c && c <= '9')
}

/// One character drawn by `rand::distr::Alphanumeric` from the thread's
/// random generator: always an ASCII letter or digit.
#[verifier::external_body]
fn random_alphanumeric() -> (c: char)
    ensures
        is_ascii_alphanumeric(c),
{
    char::from(rand::Rng::sample(&mut rand::rng(), rand::distr::Alphanumeric))
}

/// `String::push`: appends one character.
#[verifier::external_body]
fn push_char(s: &mut String, c: char)
    ensures
        final(s)@ == old(s)@.push(c),
{
    s.push(c)
}

/// A random topic name: 20 ASCII letters and digits.
pub fn generate_topic_name() -> (name: String)
    ensures
        name@.len() == 20,
        forall|i: int| 0 <= i < 20 ==> is_ascii_alphanumeric(#[trigger] name@[i]),
{
    let mut name = String::new();
    let mut i: usize = 0;
    while i < 20
        invariant
            i <= 20,
            name@.len() == i,
            forall|j: int| 0 <= j < i ==> is_ascii_alphanumeric(#[trigger] name@[j]),
        decreases 20 - i,
    {
        let c = random_alphanumeric();
        push_char(&mut name, c);
        i = i + 1;
    }
    name
}

} // verus!
