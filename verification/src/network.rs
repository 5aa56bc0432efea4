//! Addresses of the board's own server and of its peers on the tailnet.
use vstd::prelude::*;
use crate::json::{
    get, get_member, json_items, json_members, lemma_json_items, lemma_json_members, parse_json,
    parsed_json, Json, JsonValue,
};
use crate::text::{append_str, decimal, push_decimal, string_of};

verus! {

/// A peer device that serves the board.
#[derive(Debug, Clone)]
pub struct PeerInfo {
    pub ip: String,
    pub port: u16,
}

/// The address the board's server listens on: every interface, at `port`.
pub fn bind_address(port: u16) -> (r: String)
    ensures
        r@ == "0.0.0.0:"@ + decimal(port as nat),
{
    let mut v: Vec<char> = Vec::new();
    append_str(&mut v, "0.0.0.0:");
    push_decimal(&mut v, port as u64);
    assert(v@ =~= "0.0.0.0:"@ + decimal(port as nat));
    string_of(&v)
}

/// The URL of the health check of the board served by `ip` at `port`.
pub fn health_url(ip: &str, port: u16) -> (r: String)
    ensures
        r@ == "http://"@ + ip@ + ":"@ + decimal(port as nat) + "/api/health"@,
{
    let mut v: Vec<char> = Vec::new();
    append_str(&mut v, "http://");
    append_str(&mut v, ip);
    append_str(&mut v, ":");
    push_decimal(&mut v, port as u64);
    append_str(&mut v, "/api/health");
    assert(v@ =~= "http://"@ + ip@ + ":"@ + decimal(port as nat) + "/api/health"@);
    string_of(&v)
}

/// The texts among the JSON values `items`, in order.
pub open spec fn texts_among(items: Seq<Json>) -> Seq<Seq<char>>
    decreases items.len(),
{
    if items.len() == 0 {
        Seq::empty()
    } else {
        let before = texts_among(items.drop_last());
        match items.last() {
            Json::Text(t) => before.push(t),
            _ => before,
        }
    }
}

/// The texts in `v` when it is an array; none when it is anything else.
pub open spec fn text_items(v: Json) -> Seq<Seq<char>> {
    match v {
        Json::Array(items) => texts_among(items),
        _ => Seq::empty(),
    }
}

/// The addresses of the peers `peers`, the members of a status's `Peer` object: of each
/// peer in turn, the texts in its `TailscaleIPs` array.
pub open spec fn peer_addresses(peers: Seq<(Seq<char>, Json)>) -> Seq<Seq<char>>
    decreases peers.len(),
{
    if peers.len() == 0 {
        Seq::empty()
    } else {
        peer_addresses(peers.drop_last()) + match get(peers.last().1, "TailscaleIPs"@) {
            Some(ips) => text_items(ips),
            None => Seq::empty(),
        }
    }
}

/// The tailnet addresses that the document `status` printed by `tailscale status --json`
/// lists: those of the peers in its `Peer` object; none when it has no such object.
pub open spec fn status_addresses(status: Json) -> Seq<Seq<char>> {
    match get(status, "Peer"@) {
        Some(Json::Object(peers)) => peer_addresses(peers),
        _ => Seq::empty(),
    }
}

/// Appends the texts in `v`, when it is an array, to `out`.
fn push_text_items(out: &mut Vec<String>, v: &JsonValue)
    ensures
        final(out).deep_view() == old(out).deep_view() + text_items(v.json()),
{
    match v {
        JsonValue::Array(items) => {
            proof {
                lemma_json_items(items@);
            }
            let ghost js = json_items(items@);
            let ghost start = out.deep_view();
            assert(v.json() == Json::Array(js));
            let mut i: usize = 0;
            while i < items.len()
                invariant
                    i <= items.len(),
                    js == json_items(items@),
                    js.len() == items.len(),
                    forall|j: int| 0 <= j < items.len() ==> #[trigger] js[j] == items@[j].json(),
                    out.deep_view() == start + texts_among(js.take(i as int)),
                decreases items.len() - i,
            {
                let ghost before = out.deep_view();
                assert(js.take(i + 1).drop_last() =~= js.take(i as int));
                match &items[i] {
                    JsonValue::Text(t) => {
                        out.push(t.clone());
                        assert(out.deep_view() =~= before.push(t@));
                    },
                    _ => {},
                }
                i += 1;
            }
            assert(js.take(items.len() as int) =~= js);
        },
        _ => {
            assert(out.deep_view() =~= old(out).deep_view() + Seq::<Seq<char>>::empty());
        },
    }
}

/// The tailnet addresses that the document `status` printed by `tailscale status --json`
/// lists.
pub fn status_peer_addresses(status: &JsonValue) -> (r: Vec<String>)
    ensures
        r.deep_view() == status_addresses(status.json()),
{
    let mut out: Vec<String> = Vec::new();
    match get_member(status, "Peer") {
        Some(JsonValue::Object(peers)) => {
            proof {
                lemma_json_members(peers@);
            }
            let ghost ps = json_members(peers@);
            let mut i: usize = 0;
            while i < peers.len()
                invariant
                    i <= peers.len(),
                    ps == json_members(peers@),
                    ps.len() == peers.len(),
                    forall|j: int| 0 <= j < peers.len() ==> #[trigger] ps[j] == (
                        peers@[j].0@,
                        peers@[j].1.json(),
                    ),
                    out.deep_view() == peer_addresses(ps.take(i as int)),
                decreases peers.len() - i,
            {
                assert(ps.take(i + 1).drop_last() =~= ps.take(i as int));
                let ghost before = out.deep_view();
                match get_member(&peers[i].1, "TailscaleIPs") {
                    Some(ips) => {
                        push_text_items(&mut out, ips);
                    },
                    None => {
                        assert(out.deep_view() =~= before + Seq::<Seq<char>>::empty());
                    },
                }
                i += 1;
            }
            assert(ps.take(peers.len() as int) =~= ps);
        },
        _ => {},
    }
    out
}

/// The tailnet addresses that the output `stdout` of `tailscale status --json` lists;
/// none when it is not JSON.
pub fn tailscale_peers_of_status(stdout: &[u8]) -> (r: Vec<String>)
    ensures
        r.deep_view() == match parsed_json(stdout@) {
            Some(status) => status_addresses(status),
            None => Seq::empty(),
        },
{
    match parse_json(stdout) {
        Some(status) => status_peer_addresses(&status),
        None => Vec::new(),
    }
}

} // verus!
