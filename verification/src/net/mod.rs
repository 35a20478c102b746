use vstd::prelude::*;

pub mod e1000;
pub mod wifi;

verus! {

/// The settings of the network: the name of the wireless network that is
/// joined, the address of this machine, and whether traffic is encrypted.
pub struct NetConfig {
    pub ssid: Option<String>,
    pub ip: Option<[u8; 4]>,
    pub enc_enabled: bool,
}

/// What the settings hold, as plain values.
pub struct NetView {
    pub ssid: Option<Seq<char>>,
    pub ip: Option<Seq<u8>>,
    pub enc_enabled: bool,
}

impl View for NetConfig {
    type V = NetView;

    open spec fn view(&self) -> NetView {
        NetView {
            ssid: match self.ssid {
                Some(s) => Some(s@),
                None => None,
            },
            ip: match self.ip {
                Some(a) => Some(a@),
                None => None,
            },
            enc_enabled: self.enc_enabled,
        }
    }
}

impl NetConfig {
    /// The settings before any network was joined.
    pub fn new() -> (n: Self)
        ensures
            n@ == (NetView { ssid: None, ip: None, enc_enabled: false }),
    {
        NetConfig { ssid: None, ip: None, enc_enabled: false }
    }
}

/// Switches encryption on or off.
pub fn enable_encryption(net: &mut NetConfig, on: bool)
    ensures
        final(net)@ == (NetView { enc_enabled: on, ..old(net)@ }),
{
    net.enc_enabled = on;
}

/// Whether traffic is encrypted.
pub fn is_encrypted(net: &NetConfig) -> (on: bool)
    ensures
        on == net@.enc_enabled,
{
    net.enc_enabled
}

/// Sets the address of this machine.
pub fn set_ip(net: &mut NetConfig, ip: [u8; 4])
    ensures
        final(net)@ == (NetView { ip: Some(ip@), ..old(net)@ }),
{
    net.ip = Some(ip);
}

/// The address of this machine, if it has one.
pub fn ip(net: &NetConfig) -> (a: Option<[u8; 4]>)
    ensures
        a == net.ip,
{
    net.ip
}

/// Sets the name of the wireless network that is joined.
pub fn set_ssid(net: &mut NetConfig, s: &str)
    ensures
        final(net)@ == (NetView { ssid: Some(s@), ..old(net)@ }),
{
    net.ssid = Some(s.to_owned());
}

/// The name of the wireless network that is joined, if one is.
pub fn ssid(net: &NetConfig) -> (s: Option<String>)
    ensures
        match s {
            Some(name) => net@.ssid == Some(name@),
            None => net@.ssid is None,
        },
{
    match &net.ssid {
        Some(name) => Some(name.clone()),
        None => None,
    }
}

} // verus!
