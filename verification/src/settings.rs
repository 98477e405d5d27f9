use vstd::prelude::*;

verus! {

/// A node-wide setting `ray config set` reaches.
#[derive(Debug, Clone, Copy, PartialEq, Eq, Structural)]
pub enum GlobalKey {
    Mdns,
    Dns,
    DownloadDir,
    DownloadUser,
    Relay,
    DiscoveryDns,
    DnsUpstreams,
    AutoUpdate,
    OnDemand,
    Ssh,
    V4Bridge,
    PfPassthrough,
}

/// A per-network setting `ray net config` reaches.
#[derive(Debug, Clone, Copy, PartialEq, Eq, Structural)]
pub enum NetworkKey {
    AutoAcceptFirewall,
    AutoAcceptFiles,
    EphemeralTtl,
}

impl NetworkKey {
    /// Every per-network key.
    pub const ALL: [NetworkKey; 3] = [
        NetworkKey::AutoAcceptFirewall,
        NetworkKey::AutoAcceptFiles,
        NetworkKey::EphemeralTtl,
    ];
}

/// The node-wide configuration, as far as the confirmation lines read it.
#[derive(Debug, Clone)]
pub struct AppConfig {
    pub mdns_enabled: bool,
    pub dns_enabled: bool,
    pub download_dir: Option<String>,
    pub download_user: Option<u32>,
}

impl Default for AppConfig {
    /// mDNS discovery and Magic DNS on, no download directory or user set.
    fn default() -> (cfg: AppConfig)
        ensures
            cfg.mdns_enabled,
            cfg.dns_enabled,
            cfg.download_dir is None,
            cfg.download_user is None,
    {
        AppConfig { mdns_enabled: true, dns_enabled: true, download_dir: None, download_user: None }
    }
}

/// One network's configuration, as far as the confirmation lines read it.
#[derive(Debug, Clone)]
pub struct NetworkConfig {
    pub name: String,
    pub auto_accept_firewall: bool,
    pub auto_accept_files: bool,
    pub ephemeral_ttl_secs: Option<u64>,
}

/// The configuration of a freshly named network: nothing auto-accepted and no
/// ephemeral policy.
pub fn empty_network_config(name: &str) -> (net: NetworkConfig)
    ensures
        net.name@ == name@,
        !net.auto_accept_firewall,
        !net.auto_accept_files,
        net.ephemeral_ttl_secs is None,
{
    NetworkConfig {
        name: String::from_str(name),
        auto_accept_firewall: false,
        auto_accept_files: false,
        ephemeral_ttl_secs: None,
    }
}

/// The name a global key goes by on the command line.
pub open spec fn global_key_name(key: GlobalKey) -> Seq<char> {
    match key {
        GlobalKey::Mdns => "mdns"@,
        GlobalKey::Dns => "dns"@,
        GlobalKey::DownloadDir => "download-dir"@,
        GlobalKey::DownloadUser => "download-user"@,
        GlobalKey::Relay => "relay"@,
        GlobalKey::DiscoveryDns => "discovery-dns"@,
        GlobalKey::DnsUpstreams => "dns-upstreams"@,
        GlobalKey::AutoUpdate => "auto-update"@,
        GlobalKey::OnDemand => "on-demand"@,
        GlobalKey::Ssh => "ssh"@,
        GlobalKey::V4Bridge => "v4-bridge"@,
        GlobalKey::PfPassthrough => "pf-passthrough"@,
    }
}

impl GlobalKey {
    /// The name this key goes by on the command line.
    pub fn name(&self) -> (name: &'static str)
        ensures
            name@ == global_key_name(*self),
    {
        match self {
            GlobalKey::Mdns => "mdns",
            GlobalKey::Dns => "dns",
            GlobalKey::DownloadDir => "download-dir",
            GlobalKey::DownloadUser => "download-user",
            GlobalKey::Relay => "relay",
            GlobalKey::DiscoveryDns => "discovery-dns",
            GlobalKey::DnsUpstreams => "dns-upstreams",
            GlobalKey::AutoUpdate => "auto-update",
            GlobalKey::OnDemand => "on-demand",
            GlobalKey::Ssh => "ssh",
            GlobalKey::V4Bridge => "v4-bridge",
            GlobalKey::PfPassthrough => "pf-passthrough",
        }
    }
}

/// The clause every node-wide key but `dns` ends its confirmation with.
pub open spec fn restart_clause() -> Seq<char> {
    "Restart the daemon for changes to take effect."@
}

/// `enabled` or `disabled`.
pub open spec fn on_off(on: bool) -> Seq<char> {
    if on {
        "enabled"@
    } else {
        "disabled"@
    }
}

/// The confirmation line for a global key, rendered from the config as it
/// stands after the write. `reset` is set by `ray config unset`.
pub open spec fn global_message(cfg: AppConfig, key: GlobalKey, reset: bool) -> Seq<char> {
    match key {
        GlobalKey::Mdns => "mDNS discovery "@ + on_off(cfg.mdns_enabled) + ". "@ + restart_clause(),
        GlobalKey::Dns => "DNS "@ + on_off(cfg.dns_enabled) + "."@,
        GlobalKey::DownloadDir => if cfg.download_dir is None {
            "download-dir cleared. "@ + restart_clause()
        } else {
            "download-dir set. "@ + restart_clause()
        },
        GlobalKey::DownloadUser => if cfg.download_user is None {
            "download-user cleared. "@ + restart_clause()
        } else {
            "download-user set. "@ + restart_clause()
        },
        _ => if reset {
            "Reset "@ + global_key_name(key) + " to default. "@ + restart_clause()
        } else {
            "Set "@ + global_key_name(key) + ". "@ + restart_clause()
        },
    }
}

fn on_off_str(on: bool) -> (word: &'static str)
    ensures
        word@ == on_off(on),
{
    if on {
        "enabled"
    } else {
        "disabled"
    }
}

/// The confirmation line for a global key, rendered from the config as it
/// stands after the write. `reset` is set by `ray config unset`.
///
/// The keys that also have a dedicated command (`ray mdns`, `ray files
/// download-dir`, ...) confirm with that command's exact wording; the rest get
/// the generic `Set <key>.` / `Reset <key> to default.` wording. Whether `download-dir` / `download-user` read
/// "cleared" follows the resulting value, not `reset`.
pub fn global_set_message(cfg: &AppConfig, key: GlobalKey, reset: bool) -> (message: String)
    ensures
        message@ == global_message(*cfg, key, reset),
{
    let restart = "Restart the daemon for changes to take effect.";
    match key {
        GlobalKey::Mdns => {
            let mut m = String::from_str("mDNS discovery ");
            m.append(on_off_str(cfg.mdns_enabled));
            m.append(". ");
            m.append(restart);
            m
        },
        GlobalKey::Dns => {
            let mut m = String::from_str("DNS ");
            m.append(on_off_str(cfg.dns_enabled));
            m.append(".");
            m
        },
        GlobalKey::DownloadDir => {
            let mut m = if cfg.download_dir.is_none() {
                String::from_str("download-dir cleared. ")
            } else {
                String::from_str("download-dir set. ")
            };
            m.append(restart);
            m
        },
        GlobalKey::DownloadUser => {
            let mut m = if cfg.download_user.is_none() {
                String::from_str("download-user cleared. ")
            } else {
                String::from_str("download-user set. ")
            };
            m.append(restart);
            m
        },
        _ => {
            let mut m = if reset {
                String::from_str("Reset ")
            } else {
                String::from_str("Set ")
            };
            m.append(key.name());
            if reset {
                m.append(" to default. ");
            } else {
                m.append(". ");
            }
            m.append(restart);
            m
        },
    }
}

/// The decimal digit `d` (`0..10`).
pub open spec fn digit_char(d: int) -> char {
    (48 + d) as char
}

/// The decimal representation of `n`, as `{}` formats an unsigned integer.
pub open spec fn decimal(n: nat) -> Seq<char>
    decreases n,
{
    if n < 10 {
        seq![digit_char(n as int)]
    } else {
        decimal(n / 10) + seq![digit_char((n % 10) as int)]
    }
}

fn digit_str(d: u64) -> (digit: &'static str)
    requires
        d < 10,
    ensures
        digit@ == seq![digit_char(d as int)],
{
    match d {
        0 => {
            proof {
                reveal_strlit("0");
            }
            "0"
        },
        1 => {
            proof {
                reveal_strlit("1");
            }
            "1"
        },
        2 => {
            proof {
                reveal_strlit("2");
            }
            "2"
        },
        3 => {
            proof {
                reveal_strlit("3");
            }
            "3"
        },
        4 => {
            proof {
                reveal_strlit("4");
            }
            "4"
        },
        5 => {
            proof {
                reveal_strlit("5");
            }
            "5"
        },
        6 => {
            proof {
                reveal_strlit("6");
            }
            "6"
        },
        7 => {
            proof {
                reveal_strlit("7");
            }
            "7"
        },
        8 => {
            proof {
                reveal_strlit("8");
            }
            "8"
        },
        _ => {
            proof {
                reveal_strlit("9");
            }
            "9"
        },
    }
}

/// `n` in decimal, as `{}` formats it.
pub fn decimal_string(n: u64) -> (text: String)
    ensures
        text@ == decimal(n as nat),
    decreases n,
{
    if n < 10 {
        String::from_str(digit_str(n))
    } else {
        let mut text = decimal_string(n / 10);
        text.append(digit_str(n % 10));
        text
    }
}

/// The confirmation line for a per-network key, rendered from the network
/// config as it stands after the write.
pub open spec fn network_message(net: NetworkConfig, network: Seq<char>, key: NetworkKey) -> Seq<
    char,
> {
    match key {
        NetworkKey::AutoAcceptFirewall => "auto-accept firewall suggestions "@ + on_off(
            net.auto_accept_firewall,
        ) + " for '"@ + network + "'"@,
        NetworkKey::AutoAcceptFiles => "auto-accept files from your own devices "@ + on_off(
            net.auto_accept_files,
        ) + " for '"@ + network + "'"@,
        NetworkKey::EphemeralTtl => match net.ephemeral_ttl_secs {
            Some(s) => "ephemeral policy on '"@ + network + "' set to "@ + decimal(s as nat) + "s"@,
            None => "ephemeral policy on '"@ + network + "' disabled"@,
        },
    }
}

/// The confirmation line for a per-network key, rendered from the network
/// config as it stands after the write. Each key confirms with the wording of
/// its dedicated command, and none claims a restart: all take effect at once.
pub fn net_set_message(net: &NetworkConfig, network: &str, key: NetworkKey) -> (message: String)
    ensures
        message@ == network_message(*net, network@, key),
{
    match key {
        NetworkKey::AutoAcceptFirewall => {
            let mut m = String::from_str("auto-accept firewall suggestions ");
            m.append(on_off_str(net.auto_accept_firewall));
            m.append(" for '");
            m.append(network);
            m.append("'");
            m
        },
        NetworkKey::AutoAcceptFiles => {
            let mut m = String::from_str("auto-accept files from your own devices ");
            m.append(on_off_str(net.auto_accept_files));
            m.append(" for '");
            m.append(network);
            m.append("'");
            m
        },
        NetworkKey::EphemeralTtl => match net.ephemeral_ttl_secs {
            Some(s) => {
                let mut m = String::from_str("ephemeral policy on '");
                m.append(network);
                m.append("' set to ");
                let digits = decimal_string(s);
                m.append(digits.as_str());
                m.append("s");
                m
            },
            None => {
                let mut m = String::from_str("ephemeral policy on '");
                m.append(network);
                m.append("' disabled");
                m
            },
        },
    }
}

/// "cleared" follows the resulting value, not the `reset` flag: setting an
/// empty download directory or user reads the same as unsetting it.
pub proof fn lemma_download_keys_follow_the_value(cfg: AppConfig, reset: bool)
    ensures
        global_message(cfg, GlobalKey::DownloadDir, reset) == global_message(
            cfg,
            GlobalKey::DownloadDir,
            !reset,
        ),
        global_message(cfg, GlobalKey::DownloadUser, reset) == global_message(
            cfg,
            GlobalKey::DownloadUser,
            !reset,
        ),
{
}

/// Whether `s` contains the character `c`.
pub open spec fn has_char(s: Seq<char>, c: char) -> bool {
    exists|i: int| 0 <= i < s.len() && s[i] == c
}

/// Whether `s` contains `word` anywhere.
pub open spec fn has_word(s: Seq<char>, word: Seq<char>) -> bool {
    exists|i: int| 0 <= i && i + word.len() <= s.len() && #[trigger] s.subrange(i, i + word.len()) == word
}

proof fn lemma_no_r_concat(a: Seq<char>, b: Seq<char>)
    requires
        !has_char(a, 'R'),
        !has_char(b, 'R'),
    ensures
        !has_char(a + b, 'R'),
{
    assert forall|i: int| 0 <= i < (a + b).len() implies (a + b)[i] != 'R' by {
        if i < a.len() {
            assert((a + b)[i] == a[i]);
        } else {
            assert((a + b)[i] == b[i - a.len()]);
        }
    }
}

proof fn lemma_decimal_has_no_r(n: nat)
    ensures
        !has_char(decimal(n), 'R'),
    decreases n,
{
    if n >= 10 {
        lemma_decimal_has_no_r(n / 10);
        lemma_no_r_concat(decimal(n / 10), seq![digit_char((n % 10) as int)]);
    }
}

/// None of the per-network keys claims a restart is needed: they take effect
/// at once. Their confirmation lines carry no capital `R`, and so never the
/// word `Restart`, unless the network's own name brings one in.
pub proof fn lemma_network_messages_never_claim_restart(
    net: NetworkConfig,
    network: Seq<char>,
    key: NetworkKey,
)
    requires
        !has_char(network, 'R'),
    ensures
        !has_char(network_message(net, network, key), 'R'),
        !has_word(network_message(net, network, key), "Restart"@),
{
    reveal_strlit("auto-accept firewall suggestions ");
    reveal_strlit("auto-accept files from your own devices ");
    reveal_strlit("enabled");
    reveal_strlit("disabled");
    reveal_strlit(" for '");
    reveal_strlit("'");
    reveal_strlit("ephemeral policy on '");
    reveal_strlit("' set to ");
    reveal_strlit("s");
    reveal_strlit("' disabled");
    reveal_strlit("Restart");
    let msg = network_message(net, network, key);
    assert(!has_char(on_off(net.auto_accept_firewall), 'R'));
    assert(!has_char(on_off(net.auto_accept_files), 'R'));
    assert(!has_char("auto-accept firewall suggestions "@, 'R'));
    assert(!has_char("auto-accept files from your own devices "@, 'R'));
    assert(!has_char(" for '"@, 'R'));
    assert(!has_char("'"@, 'R'));
    assert(!has_char("ephemeral policy on '"@, 'R'));
    assert(!has_char("' set to "@, 'R'));
    assert(!has_char("s"@, 'R'));
    assert(!has_char("' disabled"@, 'R'));
    match key {
        NetworkKey::AutoAcceptFirewall => {
            let a = "auto-accept firewall suggestions "@ + on_off(net.auto_accept_firewall);
            lemma_no_r_concat("auto-accept firewall suggestions "@, on_off(net.auto_accept_firewall));
            lemma_no_r_concat(a, " for '"@);
            lemma_no_r_concat(a + " for '"@, network);
            lemma_no_r_concat(a + " for '"@ + network, "'"@);
        },
        NetworkKey::AutoAcceptFiles => {
            let a = "auto-accept files from your own devices "@ + on_off(net.auto_accept_files);
            lemma_no_r_concat("auto-accept files from your own devices "@, on_off(net.auto_accept_files));
            lemma_no_r_concat(a, " for '"@);
            lemma_no_r_concat(a + " for '"@, network);
            lemma_no_r_concat(a + " for '"@ + network, "'"@);
        },
        NetworkKey::EphemeralTtl => {
            let a = "ephemeral policy on '"@ + network;
            lemma_no_r_concat("ephemeral policy on '"@, network);
            match net.ephemeral_ttl_secs {
                Some(secs) => {
                    lemma_decimal_has_no_r(secs as nat);
                    lemma_no_r_concat(a, "' set to "@);
                    lemma_no_r_concat(a + "' set to "@, decimal(secs as nat));
                    lemma_no_r_concat(a + "' set to "@ + decimal(secs as nat), "s"@);
                },
                None => {
                    lemma_no_r_concat(a, "' disabled"@);
                },
            }
        },
    }
    if has_word(msg, "Restart"@) {
        let i = choose|i: int|
            0 <= i && i + "Restart"@.len() <= msg.len() && #[trigger] msg.subrange(i, i + "Restart"@.len())
                == "Restart"@;
        assert(msg.subrange(i, i + 7)[0] == 'R');
        assert(msg[i] == 'R');
    }
}

} // verus!
