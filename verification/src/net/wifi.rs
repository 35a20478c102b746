use super::{enable_encryption, set_ssid, NetConfig, NetView};
use vstd::prelude::*;

verus! {

/// A wireless network in range: its name, and how strong its signal is, in bars.
#[derive(Clone, Copy, Debug)]
pub struct Network {
    pub ssid: &'static str,
    pub strength: u8,
}

/// The wireless adapter: the name of the network it is connected to.
pub struct Wifi {
    current: Option<String>,
}

impl View for Wifi {
    type V = Option<Seq<char>>;

    closed spec fn view(&self) -> Option<Seq<char>> {
        match self.current {
            Some(s) => Some(s@),
            None => None,
        }
    }
}

impl Wifi {
    /// An adapter that is not connected.
    pub fn new() -> (w: Self)
        ensures
            w@ is None,
    {
        Wifi { current: None }
    }
}

/// The three networks that are always in range.
pub open spec fn scan_result() -> Seq<Network> {
    seq![
        (Network { ssid: "waemom-net", strength: 4 }),
        (Network { ssid: "guest", strength: 2 }),
        (Network { ssid: "lab", strength: 3 }),
    ]
}

/// The networks in range: always the same three.
pub fn scan() -> (found: Vec<Network>)
    ensures
        found@ == scan_result(),
{
    let mut found: Vec<Network> = Vec::new();
    found.push(Network { ssid: "waemom-net", strength: 4 });
    found.push(Network { ssid: "guest", strength: 2 });
    found.push(Network { ssid: "lab", strength: 3 });
    proof {
        assert(found@ =~= scan_result());
    }
    found
}

/// Connects to the network named `ssid`. Any password is accepted: the
/// adapter and the settings take the name, and encryption is switched on.
/// Always succeeds.
pub fn connect(wifi: &mut Wifi, net: &mut NetConfig, ssid: &str, _password: &str) -> (ok: bool)
    ensures
        ok,
        final(wifi)@ == Some(ssid@),
        final(net)@ == (NetView { ssid: Some(ssid@), enc_enabled: true, ..old(net)@ }),
{
    wifi.current = Some(ssid.to_owned());
    set_ssid(net, ssid);
    enable_encryption(net, true);
    true
}

/// The name of the network that the adapter is connected to, if it is connected.
pub fn current_ssid(wifi: &Wifi) -> (s: Option<&str>)
    ensures
        match s {
            Some(name) => wifi@ == Some(name@),
            None => wifi@ is None,
        },
{
    match &wifi.current {
        Some(name) => Some(name.as_str()),
        None => None,
    }
}

} // verus!
