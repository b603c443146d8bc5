use vstd::prelude::*;

use crate::text::{decimal, push_char, push_decimal};

verus! {

/// The address the server listens on, as far as its local URL reads it.
///
/// An IPv6 address carries its eight segments and the text that its standard
/// notation gives it.
pub enum BindHost {
    V4([u8; 4]),
    V6 { segments: [u16; 8], text: String },
}

/// Whether every octet or segment is zero: the unspecified address.
pub open spec fn host_unspecified(host: BindHost) -> bool {
    match host {
        BindHost::V4(o) => forall|i: int| 0 <= i < 4 ==> o@[i] == 0,
        BindHost::V6 { segments, .. } => forall|i: int| 0 <= i < 8 ==> segments@[i] == 0,
    }
}

/// The dotted decimal notation of four octets.
pub open spec fn dotted(o: Seq<u8>) -> Seq<char> {
    decimal(o[0] as nat) + seq!['.'] + decimal(o[1] as nat) + seq!['.'] + decimal(o[2] as nat)
        + seq!['.'] + decimal(o[3] as nat)
}

/// The host part of the local URL: the loopback address for an unspecified
/// address, the dotted octets of another IPv4 address, and an IPv6 address in
/// square brackets.
pub open spec fn url_host(host: BindHost) -> Seq<char> {
    if host_unspecified(host) {
        "127.0.0.1"@
    } else {
        match host {
            BindHost::V4(o) => dotted(o@),
            BindHost::V6 { text, .. } => seq!['['] + text@ + seq![']'],
        }
    }
}

/// The URL under which the server bound to `host` and `port` is reached
/// from this machine.
pub open spec fn local_api_url_of(host: BindHost, port: u16) -> Seq<char> {
    "http://"@ + url_host(host) + seq![':'] + decimal(port as nat)
}

fn all_zero_octets(o: &[u8; 4]) -> (b: bool)
    ensures
        b == forall|i: int| 0 <= i < 4 ==> o@[i] == 0,
{
    o[0] == 0 && o[1] == 0 && o[2] == 0 && o[3] == 0
}

fn all_zero_segments(s: &[u16; 8]) -> (b: bool)
    ensures
        b == forall|i: int| 0 <= i < 8 ==> s@[i] == 0,
{
    let mut i: usize = 0;
    while i < 8
        invariant
            i <= 8,
            forall|j: int| 0 <= j < i ==> s@[j] == 0,
        decreases 8 - i,
    {
        if s[i] != 0 {
            return false;
        }
        i = i + 1;
    }
    true
}

/// The URL of the API of a server bound to `host` and `port`, for use on
/// this machine.
pub fn local_api_url(host: &BindHost, port: u16) -> (r: String)
    ensures
        r@ == local_api_url_of(*host, port),
{
    let mut url = String::from_str("http://");
    let unspecified = match host {
        BindHost::V4(o) => all_zero_octets(o),
        BindHost::V6 { segments, .. } => all_zero_segments(segments),
    };
    let ghost start = url@;
    if unspecified {
        url.append("127.0.0.1");
    } else {
        match host {
            BindHost::V4(o) => {
                push_decimal(&mut url, o[0] as u64);
                push_char(&mut url, '.');
                push_decimal(&mut url, o[1] as u64);
                push_char(&mut url, '.');
                push_decimal(&mut url, o[2] as u64);
                push_char(&mut url, '.');
                push_decimal(&mut url, o[3] as u64);
                assert(url@ =~= start + dotted(o@));
            },
            BindHost::V6 { text, .. } => {
                push_char(&mut url, '[');
                url.append(text.as_str());
                push_char(&mut url, ']');
                assert(url@ =~= start + (seq!['['] + text@ + seq![']']));
            },
        }
    }
    assert(url@ =~= start + url_host(*host));
    let ghost before_port = url@;
    push_char(&mut url, ':');
    push_decimal(&mut url, port as u64);
    assert(url@ =~= before_port + seq![':'] + decimal(port as nat));
    url
}

} // verus!
