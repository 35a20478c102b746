use crate::net::wifi::{Network, Wifi};
use crate::net::{NetConfig, NetView};
use crate::text::{decimal, hex, hex_of, pad_left, push_char, push_decimal, push_padded};
use vstd::prelude::*;
use vstd::string::StringExecFns;

verus! {

/// An address as four decimal numbers with dots between them.
pub open spec fn ip_text(ip: Seq<u8>) -> Seq<char> {
    decimal(ip[0] as nat) + seq!['.'] + decimal(ip[1] as nat) + seq!['.'] + decimal(ip[2] as nat) + seq!['.'] + decimal(
        ip[3] as nat,
    )
}

/// The first `n` bytes of a hardware address as hexadecimal numbers of two
/// digits with colons between them.
pub open spec fn hex_pairs(mac: Seq<u8>, n: nat) -> Seq<char>
    decreases n,
{
    if n == 0 {
        Seq::empty()
    } else if n == 1 {
        pad_left(hex(mac[0] as nat), 2, '0')
    } else {
        hex_pairs(mac, (n - 1) as nat) + seq![':'] + pad_left(hex(mac[n - 1] as nat), 2, '0')
    }
}

/// A hardware address as six hexadecimal numbers of two digits with colons
/// between them.
pub open spec fn mac_text(mac: Seq<u8>) -> Seq<char> {
    hex_pairs(mac, 6)
}

/// The lines of the first `n` networks in range: the name of each, and its
/// strength in bars.
pub open spec fn network_lines(found: Seq<Network>, n: nat) -> Seq<char>
    decreases n,
{
    if n == 0 {
        Seq::empty()
    } else {
        network_lines(found, (n - 1) as nat) + "- "@ + found[n - 1].ssid@ + " ("@ + decimal(found[n - 1].strength as nat)
            + " bars)\n"@
    }
}

/// The text of the network window for the given settings, the hardware
/// address of the network card where there is one, and the networks in range.
pub open spec fn network_text(net: NetView, mac: Option<Seq<u8>>, found: Seq<Network>) -> Seq<char> {
    "Network\n\n"@ + "SSID: "@ + (match net.ssid {
        Some(s) => s,
        None => "<not connected>"@,
    }) + "\n"@ + "IP: "@ + (match net.ip {
        Some(a) => ip_text(a),
        None => "0.0.0.0"@,
    }) + "\n"@ + "Encryption: "@ + (if net.enc_enabled {
        "on"@
    } else {
        "off"@
    }) + "\n"@ + (match mac {
        Some(m) => "e1000 MAC: "@ + mac_text(m) + "\n"@,
        None => Seq::empty(),
    }) + "\nAvailable Wi\u{2011}Fi:\n"@ + network_lines(found, found.len())
}

/// An address as four decimal numbers with dots between them.
pub fn ip_to_string(ip: [u8; 4]) -> (text: String)
    ensures
        text@ == ip_text(ip@),
{
    let mut s = String::new();
    push_decimal(&mut s, ip[0] as u64);
    push_char(&mut s, '.');
    push_decimal(&mut s, ip[1] as u64);
    push_char(&mut s, '.');
    push_decimal(&mut s, ip[2] as u64);
    push_char(&mut s, '.');
    push_decimal(&mut s, ip[3] as u64);
    proof {
        assert(s@ =~= ip_text(ip@));
    }
    s
}

/// Appends a hardware address.
fn push_mac(s: &mut String, mac: &[u8; 6])
    ensures
        final(s)@ == old(s)@ + mac_text(mac@),
{
    let mut i: usize = 0;
    proof {
        assert(s@ =~= old(s)@ + hex_pairs(mac@, 0));
    }
    while i < 6
        invariant
            i <= 6,
            s@ == old(s)@ + hex_pairs(mac@, i as nat),
        decreases 6 - i,
    {
        let ghost before = s@;
        if i > 0 {
            push_char(s, ':');
        }
        push_padded(s, &hex_of(mac[i] as u64), 2, '0');
        proof {
            if i == 0 {
                assert(s@ =~= old(s)@ + hex_pairs(mac@, 1));
            } else {
                assert(s@ =~= old(s)@ + (hex_pairs(mac@, i as nat) + seq![':'] + pad_left(hex(mac@[i as int] as nat), 2, '0')));
            }
        }
        i += 1;
    }
}

/// The text of the network window: the settings, the hardware address of
/// the network card where there is one, and the networks in range.
pub fn view(net: &NetConfig, mac: Option<[u8; 6]>) -> (text: String)
    ensures
        text@ == network_text(
            net@,
            match mac {
                Some(m) => Some(m@),
                None => None,
            },
            crate::net::wifi::scan_result(),
        ),
{
    let mut s = String::from_str("Network\n\n");
    s.append("SSID: ");
    match &net.ssid {
        Some(name) => {
            s.append(name.as_str());
        },
        None => {
            s.append("<not connected>");
        },
    }
    s.append("\n");
    s.append("IP: ");
    match net.ip {
        Some(a) => {
            let t = ip_to_string(a);
            s.append(t.as_str());
        },
        None => {
            s.append("0.0.0.0");
        },
    }
    s.append("\n");
    s.append("Encryption: ");
    if net.enc_enabled {
        s.append("on");
    } else {
        s.append("off");
    }
    s.append("\n");
    let ghost before_mac = s@;
    match mac {
        Some(m) => {
            s.append("e1000 MAC: ");
            push_mac(&mut s, &m);
            s.append("\n");
            proof {
                assert(s@ =~= before_mac + ("e1000 MAC: "@ + mac_text(m@) + "\n"@));
            }
        },
        None => {
            proof {
                assert(s@ =~= before_mac + Seq::<char>::empty());
            }
        },
    }
    s.append("\nAvailable Wi\u{2011}Fi:\n");
    let found = crate::net::wifi::scan();
    let ghost head = s@;
    let mut i: usize = 0;
    proof {
        assert(s@ =~= head + network_lines(found@, 0));
    }
    while i < found.len()
        invariant
            i <= found@.len(),
            s@ == head + network_lines(found@, i as nat),
        decreases found@.len() - i,
    {
        s.append("- ");
        s.append(found[i].ssid);
        s.append(" (");
        push_decimal(&mut s, found[i].strength as u64);
        s.append(" bars)\n");
        proof {
            assert(s@ =~= head + (network_lines(found@, i as nat) + "- "@ + found@[i as int].ssid@ + " ("@ + decimal(
                found@[i as int].strength as nat,
            ) + " bars)\n"@));
        }
        i += 1;
    }
    s
}

/// Connects to the wireless network that the system knows by default.
pub fn connect_default(wifi: &mut Wifi, net: &mut NetConfig)
    ensures
        final(wifi)@ == Some("waemom-net"@),
        final(net)@ == (NetView { ssid: Some("waemom-net"@), enc_enabled: true, ..old(net)@ }),
{
    let _ok = crate::net::wifi::connect(wifi, net, "waemom-net", "password");
}

} // verus!
