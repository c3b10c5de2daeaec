//! Trusted dApp catalog and the URL decisions made before the dApp browser opens
//! a page: scheme defaulting, preference keys, candidate selection and the URL
//! handed to the browser process.

use vstd::prelude::*;
use crate::text::{
    chars_start_with_str, has_prefix, lower_chars, lower_seq, push_str, str_eq, string_from_chars, to_ascii_lowercase, to_owned_string,
    trim_chars, trim_seq, lemma_trim_ends, lemma_trim_fixed,
};
use crate::urls::{parse_outcome_view, parse_url, url_parse_result, ParsedUrl, ParsedUrlView};

verus! {

broadcast use vstd::string::group_string_axioms;

/// One trusted dApp row of the catalog.
#[derive(Clone, Copy)]
pub struct TrustedDapp {
    pub name: &'static str,
    pub url: &'static str,
    pub description: &'static str,
    /// Short label for the card footer (e.g. `DEX`, `DeFi`).
    pub category: &'static str,
    /// Chains the dApp is shown on; empty means every chain.
    pub chains: &'static [u64],
}

/// The dApp is shown on `chain`: it lists no chains, or lists this one.
pub open spec fn visible_on_chain(dapp: TrustedDapp, chain: u64) -> bool {
    dapp.chains@.len() == 0 || dapp.chains@.contains(chain)
}

/// Whether a catalog entry is shown on the active chain (empty chain list: every chain).
pub fn trusted_dapp_visible_on_chain(dapp: &TrustedDapp, active_chain_id: u64) -> (r: bool)
    ensures
        r == visible_on_chain(*dapp, active_chain_id),
{
    if dapp.chains.len() == 0 {
        return true;
    }
    let mut i: usize = 0;
    while i < dapp.chains.len()
        invariant
            i <= dapp.chains@.len(),
            forall|j: int| 0 <= j < i ==> dapp.chains@[j] != active_chain_id,
        decreases dapp.chains@.len() - i,
    {
        if dapp.chains[i] == active_chain_id {
            assert(dapp.chains@[i as int] == active_chain_id);
            return true;
        }
        i += 1;
    }
    false
}

fn dapp(
    name: &'static str,
    url: &'static str,
    description: &'static str,
    category: &'static str,
    chains: &'static [u64],
) -> (d: TrustedDapp)
    ensures
        d.name == name,
        d.url == url,
        d.description == description,
        d.category == category,
        d.chains == chains,
{
    TrustedDapp { name, url, description, category, chains }
}

/// The catalog: name, URL, description, category and chains of each dApp, in
/// display order.
pub open spec fn catalog() -> Seq<(Seq<char>, Seq<char>, Seq<char>, Seq<char>, Seq<u64>)> {
    seq![
        ("Uniswap"@, "https://app.uniswap.org"@, "Swap, earn, and build on the leading decentralized crypto trading protocol."@, "DEX"@, seq![1u64, 10, 137, 42161, 8453]),
        ("SushiSwap"@, "https://www.sushi.com/swap"@, "Community-driven DEX and DeFi platform."@, "DEX"@, seq![1u64, 10, 137, 42161, 56]),
        ("PancakeSwap"@, "https://pancakeswap.finance"@, "Popular DEX on BNB Chain."@, "DEX"@, seq![56u64, 1]),
        ("Curve Finance"@, "https://curve.fi"@, "Stablecoin-focused DEX with low slippage."@, "DEX"@, seq![1u64, 10, 137, 42161]),
        ("Aave"@, "https://app.aave.com"@, "Leading decentralized lending protocol."@, "Lending"@, seq![1u64, 10, 137, 42161, 43114]),
        ("Compound"@, "https://app.compound.finance/?market=usdc-mainnet"@, "Algorithmic money market protocol."@, "Lending"@, seq![1u64, 10, 137, 42161]),
        ("1inch"@, "https://1inch.com/swap"@, "DEX aggregator for best swap rates."@, "DEX"@, seq![1u64, 10, 137, 42161, 56]),
        ("OpenSea"@, "https://opensea.io"@, "Largest NFT marketplace."@, "NFT"@, seq![1u64, 10, 137, 42161, 8453]),
        ("Stargate Finance"@, "https://stargate.finance"@, "Cross-chain bridge powered by LayerZero."@, "Bridge"@, seq![1u64, 10, 137, 42161, 56, 43114]),
        ("PulseChain Faucet"@, "https://faucet.v4.testnet.pulsechain.com/"@, "Get free PLS and other tokens for testing on PulseChain V4 Testnet."@, "Tools"@, seq![943u64]),
        ("PulseX (Local)"@, "http://127.0.0.1:3691"@, "PulseX on loopback. Use the footer icons to install or start when needed."@, "DEX"@, seq![369u64, 943]),
        ("PulseX"@, "https://app.pulsex.com"@, "The most liquid DEX on PulseChain."@, "DEX"@, seq![369u64, 943]),
        ("Piteas"@, "https://app.piteas.io"@, "DEX aggregator on PulseChain."@, "DeFi"@, seq![369u64, 943]),
        ("GoPulse"@, "https://gopulse.com"@, "PulseChain portfolio tracker and explorer."@, "Data"@, seq![369u64]),
        ("Internet Money"@, "https://internetmoney.io"@, "Native PulseChain wallet and swap."@, "Wallet"@, seq![369u64]),
        ("Provex (Revolut)"@, "https://app.provex.com/#/?provider=revolut"@, "Crypto on-ramp via Revolut."@, "DeFi"@, seq![1u64, 10, 137, 42161, 56, 43114, 8453]),
        ("LibertySwap"@, "https://libertyswap.finance/"@, "Community-driven DEX for PulseChain."@, "DEX"@, seq![369u64]),
        ("0xCurv"@, "https://www.0xcurv.win/"@, "DeFi protocol and decentralized application."@, "DeFi"@, seq![369u64, 1]),
        ("Pump Tires"@, "https://pump.tires/"@, "Fair-launch platform for PulseChain tokens."@, "DEX"@, seq![369u64]),
        ("9mm DEX"@, "https://dex.9mm.pro/swap"@, "DEX and launchpad on PulseChain."@, "DEX"@, seq![369u64]),
        ("9Inch"@, "https://9inch.io/?chain=pulse&inputCurrency=0x6B175474E89094C44Da98b954EedeAC495271d0F&outputCurrency=0x78a2809e8e2ef8e07429559f15703Ee20E885588"@, "Decentralized exchange and yield farming on PulseChain."@, "DEX"@, seq![369u64]),
        ("Hyperliquid"@, "https://app.hyperliquid.xyz/trade"@, "Decentralized perpetual exchange with orderbook architecture."@, "DEX"@, seq![42161u64]),
        ("Aster DEX"@, "https://www.asterdex.com/en/trade/pro/futures/ASTERUSDT"@, "Next-gen perpetual DEX for traders."@, "DEX"@, seq![1u64, 42161, 369]),
    ]
}

/// The catalog row of a dApp entry.
pub open spec fn catalog_row(d: TrustedDapp) -> (Seq<char>, Seq<char>, Seq<char>, Seq<char>, Seq<u64>) {
    (d.name@, d.url@, d.description@, d.category@, d.chains@)
}

/// The curated dApp list shown in the DApps view, in display order.
pub fn trusted_dapp_entries() -> (v: Vec<TrustedDapp>)
    ensures
        v@.map_values(|d: TrustedDapp| catalog_row(d)) == catalog(),
        v.len() == 23,
        forall|i: int| 0 <= i < v.len() ==> (#[trigger] v@[i]).chains@.len() > 0,
{
    let mut v: Vec<TrustedDapp> = Vec::new();
    v.push(dapp("Uniswap", "https://app.uniswap.org",
        "Swap, earn, and build on the leading decentralized crypto trading protocol.", "DEX",
        &[1, 10, 137, 42161, 8453]));
    v.push(dapp("SushiSwap", "https://www.sushi.com/swap", "Community-driven DEX and DeFi platform.",
        "DEX", &[1, 10, 137, 42161, 56]));
    v.push(dapp("PancakeSwap", "https://pancakeswap.finance", "Popular DEX on BNB Chain.", "DEX",
        &[56, 1]));
    v.push(dapp("Curve Finance", "https://curve.fi", "Stablecoin-focused DEX with low slippage.",
        "DEX", &[1, 10, 137, 42161]));
    v.push(dapp("Aave", "https://app.aave.com", "Leading decentralized lending protocol.", "Lending",
        &[1, 10, 137, 42161, 43114]));
    v.push(dapp("Compound", "https://app.compound.finance/?market=usdc-mainnet",
        "Algorithmic money market protocol.", "Lending", &[1, 10, 137, 42161]));
    v.push(dapp("1inch", "https://1inch.com/swap", "DEX aggregator for best swap rates.", "DEX",
        &[1, 10, 137, 42161, 56]));
    v.push(dapp("OpenSea", "https://opensea.io", "Largest NFT marketplace.", "NFT",
        &[1, 10, 137, 42161, 8453]));
    v.push(dapp("Stargate Finance", "https://stargate.finance",
        "Cross-chain bridge powered by LayerZero.", "Bridge", &[1, 10, 137, 42161, 56, 43114]));
    v.push(dapp("PulseChain Faucet", "https://faucet.v4.testnet.pulsechain.com/",
        "Get free PLS and other tokens for testing on PulseChain V4 Testnet.", "Tools", &[943]));
    v.push(dapp("PulseX (Local)", "http://127.0.0.1:3691",
        "PulseX on loopback. Use the footer icons to install or start when needed.", "DEX",
        &[369, 943]));
    v.push(dapp("PulseX", "https://app.pulsex.com", "The most liquid DEX on PulseChain.", "DEX",
        &[369, 943]));
    v.push(dapp("Piteas", "https://app.piteas.io", "DEX aggregator on PulseChain.", "DeFi",
        &[369, 943]));
    v.push(dapp("GoPulse", "https://gopulse.com", "PulseChain portfolio tracker and explorer.",
        "Data", &[369]));
    v.push(dapp("Internet Money", "https://internetmoney.io", "Native PulseChain wallet and swap.",
        "Wallet", &[369]));
    v.push(dapp("Provex (Revolut)", "https://app.provex.com/#/?provider=revolut",
        "Crypto on-ramp via Revolut.", "DeFi", &[1, 10, 137, 42161, 56, 43114, 8453]));
    v.push(dapp("LibertySwap", "https://libertyswap.finance/", "Community-driven DEX for PulseChain.",
        "DEX", &[369]));
    v.push(dapp("0xCurv", "https://www.0xcurv.win/", "DeFi protocol and decentralized application.",
        "DeFi", &[369, 1]));
    v.push(dapp("Pump Tires", "https://pump.tires/", "Fair-launch platform for PulseChain tokens.",
        "DEX", &[369]));
    v.push(dapp("9mm DEX", "https://dex.9mm.pro/swap", "DEX and launchpad on PulseChain.", "DEX",
        &[369]));
    v.push(dapp("9Inch",
        "https://9inch.io/?chain=pulse&inputCurrency=0x6B175474E89094C44Da98b954EedeAC495271d0F&outputCurrency=0x78a2809e8e2ef8e07429559f15703Ee20E885588",
        "Decentralized exchange and yield farming on PulseChain.", "DEX", &[369]));
    v.push(dapp("Hyperliquid", "https://app.hyperliquid.xyz/trade",
        "Decentralized perpetual exchange with orderbook architecture.", "DEX", &[42161]));
    v.push(dapp("Aster DEX", "https://www.asterdex.com/en/trade/pro/futures/ASTERUSDT",
        "Next-gen perpetual DEX for traders.", "DEX", &[1, 42161, 369]));
    proof {
        assert(v@[0].chains@ =~= catalog()[0].4);
        assert(v@[1].chains@ =~= catalog()[1].4);
        assert(v@[2].chains@ =~= catalog()[2].4);
        assert(v@[3].chains@ =~= catalog()[3].4);
        assert(v@[4].chains@ =~= catalog()[4].4);
        assert(v@[5].chains@ =~= catalog()[5].4);
        assert(v@[6].chains@ =~= catalog()[6].4);
        assert(v@[7].chains@ =~= catalog()[7].4);
        assert(v@[8].chains@ =~= catalog()[8].4);
        assert(v@[9].chains@ =~= catalog()[9].4);
        assert(v@[10].chains@ =~= catalog()[10].4);
        assert(v@[11].chains@ =~= catalog()[11].4);
        assert(v@[12].chains@ =~= catalog()[12].4);
        assert(v@[13].chains@ =~= catalog()[13].4);
        assert(v@[14].chains@ =~= catalog()[14].4);
        assert(v@[15].chains@ =~= catalog()[15].4);
        assert(v@[16].chains@ =~= catalog()[16].4);
        assert(v@[17].chains@ =~= catalog()[17].4);
        assert(v@[18].chains@ =~= catalog()[18].4);
        assert(v@[19].chains@ =~= catalog()[19].4);
        assert(v@[20].chains@ =~= catalog()[20].4);
        assert(v@[21].chains@ =~= catalog()[21].4);
        assert(v@[22].chains@ =~= catalog()[22].4);
    }
    assert(v@.map_values(|d: TrustedDapp| catalog_row(d)) =~= catalog());
    v
}

/// `raw` trimmed, with `https://` put in front when it names no http(s) scheme;
/// empty when `raw` is blank.
pub open spec fn format_user_dapp_url_spec(raw: Seq<char>) -> Seq<char> {
    let t = trim_seq(raw);
    if t.len() == 0 {
        t
    } else if has_prefix(lower_seq(t), "http://"@) || has_prefix(lower_seq(t), "https://"@) {
        t
    } else {
        "https://"@ + t
    }
}

/// Formatting a URL the user typed is idempotent: a formatted URL is left as it is.
pub proof fn law_format_user_dapp_url_idempotent(raw: Seq<char>)
    ensures
        format_user_dapp_url_spec(format_user_dapp_url_spec(raw)) == format_user_dapp_url_spec(raw),
{
    let t = trim_seq(raw);
    lemma_trim_ends(raw);
    if t.len() > 0 {
        lemma_trim_fixed(t);
        if !(has_prefix(lower_seq(t), "http://"@) || has_prefix(lower_seq(t), "https://"@)) {
            reveal_strlit("https://");
            let u = "https://"@ + t;
            assert(u[0] == 'h');
            assert(u.last() == t.last());
            lemma_trim_fixed(u);
            assert(lower_seq(u).subrange(0, 8) =~= "https://"@);
        }
    }
}

/// Prepends `https://` when the user omitted a scheme.
pub fn format_user_dapp_url(raw: &str) -> (r: String)
    ensures
        r@ == format_user_dapp_url_spec(raw@),
{
    let t = trim_chars(raw);
    if t.len() == 0 {
        return String::new();
    }
    let lower = lower_chars(&t);
    if chars_start_with_str(&lower, "http://") || chars_start_with_str(&lower, "https://") {
        string_from_chars(&t)
    } else {
        let mut s = to_owned_string("https://");
        let ts = string_from_chars(&t);
        push_str(&mut s, ts.as_str());
        s
    }
}

/// Preference key of a dApp URL given how it parsed: the lower-cased host, or the
/// whole URL lower-cased when it does not parse or has no host.
pub open spec fn usage_key_from(url: Seq<char>, parsed: Result<ParsedUrlView, Seq<char>>) -> Seq<char> {
    match parsed {
        Ok(p) => match p.host {
            Some(h) => lower_seq(h),
            None => lower_seq(url),
        },
        Err(_) => lower_seq(url),
    }
}

/// Preference key of a dApp URL.
pub open spec fn usage_key(url: Seq<char>) -> Seq<char> {
    usage_key_from(url, url_parse_result(url))
}

/// Preference key of `url` once it was parsed.
pub fn preference_key_after_parse(url: &str, parsed: Result<ParsedUrl, String>) -> (r: String)
    ensures
        r@ == usage_key_from(url@, parse_outcome_view(parsed)),
{
    match parsed {
        Ok(p) => match p.host {
            Some(h) => to_ascii_lowercase(h.as_str()),
            None => to_ascii_lowercase(url),
        },
        Err(_) => to_ascii_lowercase(url),
    }
}

/// Key under which per-chain fast-dApp preferences are stored for a URL.
pub fn dapp_preference_key(url: &str) -> (r: String)
    ensures
        r@ == usage_key(url@),
{
    preference_key_after_parse(url, parse_url(url))
}

/// Card label for a URL given how it parsed: its host, or the URL itself when it
/// has none.
pub open spec fn host_label_from(url: Seq<char>, parsed: Result<ParsedUrlView, Seq<char>>) -> Seq<char> {
    match parsed {
        Ok(p) => match p.host {
            Some(h) => h,
            None => url,
        },
        Err(_) => url,
    }
}

/// Card label for a URL.
pub open spec fn host_label_spec(url: Seq<char>) -> Seq<char> {
    host_label_from(url, url_parse_result(url))
}

/// Card label of `url` once it was parsed.
pub fn host_label_after_parse(url: &str, parsed: Result<ParsedUrl, String>) -> (r: String)
    ensures
        r@ == host_label_from(url@, parse_outcome_view(parsed)),
{
    match parsed {
        Ok(p) => match p.host {
            Some(h) => h,
            None => to_owned_string(url),
        },
        Err(_) => to_owned_string(url),
    }
}

/// Display name for a custom dApp: the URL's host, else the URL.
pub fn host_label(url: &str) -> (r: String)
    ensures
        r@ == host_label_spec(url@),
{
    host_label_after_parse(url, parse_url(url))
}

/// Favicon-service URL for a dApp given how its URL parsed: only with a host.
pub open spec fn favicon_url_from(parsed: Result<ParsedUrlView, Seq<char>>) -> Option<Seq<char>> {
    match parsed {
        Ok(p) => match p.host {
            Some(h) => Some("https://www.google.com/s2/favicons?domain="@ + h + "&sz=128"@),
            None => None,
        },
        Err(_) => None,
    }
}

/// Favicon-service URL for a dApp URL.
pub open spec fn favicon_url_spec(url: Seq<char>) -> Option<Seq<char>> {
    favicon_url_from(url_parse_result(url))
}

/// Favicon-service URL once the dApp URL was parsed.
pub fn favicon_url_after_parse(parsed: Result<ParsedUrl, String>) -> (r: Option<String>)
    ensures
        match r {
            Some(s) => favicon_url_from(parse_outcome_view(parsed)) == Some(s@),
            None => favicon_url_from(parse_outcome_view(parsed)).is_none(),
        },
{
    match parsed {
        Ok(p) => match p.host {
            Some(h) => {
                let mut s = to_owned_string("https://www.google.com/s2/favicons?domain=");
                push_str(&mut s, h.as_str());
                push_str(&mut s, "&sz=128");
                Some(s)
            },
            None => None,
        },
        Err(_) => None,
    }
}

/// Google favicon service URL for a full dApp URL.
pub fn google_favicon_url_for_dapp(url: &str) -> (r: Option<String>)
    ensures
        match r {
            Some(s) => favicon_url_spec(url@) == Some(s@),
            None => favicon_url_spec(url@).is_none(),
        },
{
    favicon_url_after_parse(parse_url(url))
}

/// The URL handed to the browser process given how the trimmed input parsed: it
/// must use `http` or `https`; its serialization is launched.
pub open spec fn launch_url_from(parsed: Result<ParsedUrlView, Seq<char>>) -> Result<Seq<char>, Seq<char>> {
    match parsed {
        Err(e) => Err(e),
        Ok(p) => if p.scheme != "http"@ && p.scheme != "https"@ {
            Err("Only http:// and https:// URLs are allowed"@)
        } else {
            Ok(p.serialized)
        },
    }
}

/// The URL handed to the browser process for `url_str`.
pub open spec fn launch_url_spec(url_str: Seq<char>) -> Result<Seq<char>, Seq<char>> {
    launch_url_from(url_parse_result(trim_seq(url_str)))
}

/// View of a string outcome.
pub open spec fn str_result_view(r: Result<String, String>) -> Result<Seq<char>, Seq<char>> {
    match r {
        Ok(s) => Ok(s@),
        Err(e) => Err(e@),
    }
}

/// The URL to launch once the trimmed input was parsed.
pub fn launch_url_after_parse(parsed: Result<ParsedUrl, String>) -> (r: Result<String, String>)
    ensures
        str_result_view(r) == launch_url_from(parse_outcome_view(parsed)),
{
    match parsed {
        Err(e) => Err(e),
        Ok(p) => {
            if !str_eq(p.scheme.as_str(), "http") && !str_eq(p.scheme.as_str(), "https") {
                Err(to_owned_string("Only http:// and https:// URLs are allowed"))
            } else {
                Ok(p.serialized)
            }
        },
    }
}

/// Decides which URL a new dApp browser window opens for `url_str` (any http(s) URL).
/// The caller spawns the browser process with the returned URL.
pub fn open_any_dapp_url(url_str: &str) -> (r: Result<String, String>)
    ensures
        str_result_view(r) == launch_url_spec(url_str@),
{
    let t = trim_chars(url_str);
    let ts = string_from_chars(&t);
    launch_url_after_parse(parse_url(ts.as_str()))
}

/// How the dApp browser process is started: its command-line arguments, the
/// environment it gets on top of the wallet's, and whether its stdin is a pipe
/// the wallet keeps for control lines.
pub struct BrowserLaunch {
    pub args: Vec<String>,
    pub env: Vec<(String, String)>,
    pub pipe_stdin: bool,
}

/// The command line of a cold start that opens `url`:
/// `--ipc <endpoint> --token <token> --url <url>`.
pub open spec fn launch_args_spec(endpoint: Seq<char>, token: Seq<char>, url: Seq<char>) -> Seq<Seq<char>> {
    seq!["--ipc"@, endpoint, "--token"@, token, "--url"@, url]
}

/// Launch description for a new dApp browser window on `url`. `boot` is the
/// running wallet IPC endpoint and its session token; without it nothing is
/// launched. Every spawn gets `VAUGHAN_WALLET_SPAWNED=1` and a piped stdin.
pub fn browser_launch_args(boot: Option<(String, String)>, url: &str) -> (r: Result<BrowserLaunch, String>)
    ensures
        boot is None ==> (r matches Err(e) && e@ == "Wallet IPC is not running; restart the wallet."@),
        boot matches Some((endpoint, token)) ==> (r matches Ok(l) && l.args@.map_values(
            |a: String| a@,
        ) == launch_args_spec(endpoint@, token@, url@) && l.env@.len() == 1 && l.env@[0].0@
            == "VAUGHAN_WALLET_SPAWNED"@ && l.env@[0].1@ == "1"@ && l.pipe_stdin),
{
    match boot {
        None => Err(to_owned_string("Wallet IPC is not running; restart the wallet.")),
        Some((endpoint, token)) => {
            let ghost e = endpoint@;
            let ghost t = token@;
            let mut args: Vec<String> = Vec::new();
            args.push(to_owned_string("--ipc"));
            args.push(endpoint);
            args.push(to_owned_string("--token"));
            args.push(token);
            args.push(to_owned_string("--url"));
            args.push(to_owned_string(url));
            assert(args@.map_values(|a: String| a@) =~= launch_args_spec(e, t, url@));
            let mut env: Vec<(String, String)> = Vec::new();
            env.push((to_owned_string("VAUGHAN_WALLET_SPAWNED"), to_owned_string("1")));
            Ok(BrowserLaunch { args, env, pipe_stdin: true })
        },
    }
}

/// Opens a dApp that passed the trusted-host check: `validated` is that check's
/// outcome (the normalized URL, or its refusal); a refusal is returned as is.
pub fn open_trusted_dapp_url_new_window(validated: Result<String, String>) -> (r: Result<String, String>)
    ensures
        str_result_view(r) == match str_result_view(validated) {
            Err(e) => Err(e),
            Ok(full) => launch_url_spec(full),
        },
{
    match validated {
        Err(e) => Err(e),
        Ok(full) => open_any_dapp_url(full.as_str()),
    }
}

/// Opens a trusted dApp preferring a warmed window; with no warm pool this is a new window.
pub fn open_trusted_dapp_url_prefer_warm_window(validated: Result<String, String>) -> (r: Result<String, String>)
    ensures
        str_result_view(r) == match str_result_view(validated) {
            Err(e) => Err(e),
            Ok(full) => launch_url_spec(full),
        },
{
    open_trusted_dapp_url_new_window(validated)
}

/// Opens a dApp card: fast dApps prefer a warmed window, others get a new one.
pub fn open_dapp(validated: Result<String, String>, is_fast: bool) -> (r: Result<String, String>)
    ensures
        str_result_view(r) == match str_result_view(validated) {
            Err(e) => Err(e),
            Ok(full) => launch_url_spec(full),
        },
{
    if is_fast {
        open_trusted_dapp_url_prefer_warm_window(validated)
    } else {
        open_trusted_dapp_url_new_window(validated)
    }
}

/// Hidden prewarming of top dApps; the warm pool is disabled, so this does nothing.
pub fn prewarm_top_trusted_dapps_for_chain(_limit: usize, _active_chain_id: u64) {
}

} // verus!
