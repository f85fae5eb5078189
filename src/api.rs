//! The tunnel service: the records it returns, the URLs of its requests, and
//! the grouping of tunnels by node that the selection prompts are built from.
use vstd::prelude::*;
use vstd::string::*;
use crate::text::str_eq;

verus! {

/// One tunnel as listed by the service.
pub struct TunnelData {
    pub id: u32,
    pub name: String,
    pub localip: String,
    pub tunnel_type: String,
    pub nport: u16,
    pub dorp: String,
    pub node: String,
    pub state: String,
    pub userid: u32,
    pub encryption: String,
    pub compression: String,
    pub ap: String,
    pub uptime: Option<String>,
    pub client_version: Option<String>,
    pub today_traffic_in: u64,
    pub today_traffic_out: u64,
    pub cur_conns: u32,
    pub nodestate: String,
    pub ip: String,
}

/// The envelope of the tunnel listing.
pub struct ChmlFrpNodeInfo {
    pub msg: String,
    pub code: u16,
    pub data: Vec<TunnelData>,
    pub state: String,
}

/// The envelope of a rendered configuration; `data` is the INI text, kept
/// verbatim.
pub struct ChmlFrpConfigData {
    pub msg: String,
    pub code: u16,
    pub data: String,
    pub state: String,
}

/// The stored credentials.
pub struct ChmlCliConfig {
    pub token: String,
    pub user_id: String,
}

/// The character of a decimal digit.
pub open spec fn digit_char(d: nat) -> char {
    if d == 0 {
        '0'
    } else if d == 1 {
        '1'
    } else if d == 2 {
        '2'
    } else if d == 3 {
        '3'
    } else if d == 4 {
        '4'
    } else if d == 5 {
        '5'
    } else if d == 6 {
        '6'
    } else if d == 7 {
        '7'
    } else if d == 8 {
        '8'
    } else {
        '9'
    }
}

/// The decimal representation of `n`, without leading zeros.
pub open spec fn decimal(n: nat) -> Seq<char>
    decreases n,
{
    if n < 10 {
        seq![digit_char(n)]
    } else {
        decimal(n / 10).push(digit_char(n % 10))
    }
}

fn digit_str(d: u32) -> (r: &'static str)
    requires
        d < 10,
    ensures
        r@ == seq![digit_char(d as nat)],
{
    proof {
        reveal_strlit("0");
        reveal_strlit("1");
        reveal_strlit("2");
        reveal_strlit("3");
        reveal_strlit("4");
        reveal_strlit("5");
        reveal_strlit("6");
        reveal_strlit("7");
        reveal_strlit("8");
        reveal_strlit("9");
    }
    if d == 0 {
        "0"
    } else if d == 1 {
        "1"
    } else if d == 2 {
        "2"
    } else if d == 3 {
        "3"
    } else if d == 4 {
        "4"
    } else if d == 5 {
        "5"
    } else if d == 6 {
        "6"
    } else if d == 7 {
        "7"
    } else if d == 8 {
        "8"
    } else {
        "9"
    }
}

/// Appends the decimal representation of `n` to `s`.
pub fn push_decimal(s: &mut String, n: u32)
    ensures
        final(s)@ == old(s)@ + decimal(n as nat),
    decreases n,
{
    if n >= 10 {
        push_decimal(s, n / 10);
    }
    let ghost mid = s@;
    s.append(digit_str(n % 10));
    if n >= 10 {
        assert(s@ =~= old(s)@ + decimal(n as nat));
    } else {
        assert(s@ =~= old(s)@ + decimal(n as nat));
    }
}

/// `names` joined with `,` between neighbours.
pub open spec fn comma_joined(names: Seq<Seq<char>>) -> Seq<char>
    decreases names.len(),
{
    if names.len() == 0 {
        Seq::empty()
    } else if names.len() == 1 {
        names[0]
    } else {
        comma_joined(names.drop_last()) + seq![','] + names.last()
    }
}

/// The views of a list of strings.
pub open spec fn string_views(v: Seq<String>) -> Seq<Seq<char>> {
    v.map_values(|s: String| s@)
}

/// Joins `names` with `,` between neighbours.
pub fn join_names(names: &Vec<String>) -> (r: String)
    ensures
        r@ == comma_joined(string_views(names@)),
{
    let mut r = String::new();
    let mut i: usize = 0;
    while i < names.len()
        invariant
            i <= names@.len(),
            r@ == comma_joined(string_views(names@).subrange(0, i as int)),
        decreases names@.len() - i,
    {
        let ghost all = string_views(names@);
        assert(all.subrange(0, i + 1).drop_last() =~= all.subrange(0, i as int));
        assert(all.subrange(0, i + 1).last() == names@[i as int]@);
        if i > 0 {
            r.append(",");
            proof {
                reveal_strlit(",");
            }
        }
        r.append(names[i].as_str());
        if i == 0 {
            assert(r@ =~= comma_joined(all.subrange(0, 1)));
        }
        i = i + 1;
    }
    assert(string_views(names@).subrange(0, names@.len() as int) =~= string_views(names@));
    r
}

/// The tunnel listing request for `token`.
pub open spec fn node_info_url_of(token: Seq<char>) -> Seq<char> {
    "https://cf-v2.uapis.cn/tunnel?token="@ + token
}

/// URL of the tunnel listing request.
pub fn node_info_url(token: &str) -> (r: String)
    ensures
        r@ == node_info_url_of(token@),
{
    let mut r = "https://cf-v2.uapis.cn/tunnel?token=".to_owned();
    r.append(token);
    r
}

/// The rendered-configuration request for the tunnels `names` on `node`.
pub open spec fn config_url_of(token: Seq<char>, node: Seq<char>, names: Seq<Seq<char>>) -> Seq<
    char,
> {
    "https://cf-v2.uapis.cn/tunnel_config?token="@ + token + "&node="@ + node
        + "&tunnel_names="@ + comma_joined(names)
}

/// URL of the request for the rendered configuration of tunnels `names` on `node`.
pub fn config_url(token: &str, node: &str, names: &Vec<String>) -> (r: String)
    ensures
        r@ == config_url_of(token@, node@, string_views(names@)),
{
    let mut r = "https://cf-v2.uapis.cn/tunnel_config?token=".to_owned();
    r.append(token);
    r.append("&node=");
    r.append(node);
    r.append("&tunnel_names=");
    let joined = join_names(names);
    r.append(joined.as_str());
    r
}

/// The deletion request of tunnel `tunnel_id` for user `user_id`.
pub open spec fn rm_tunnel_url_of(token: Seq<char>, tunnel_id: nat, user_id: Seq<char>) -> Seq<
    char,
> {
    "https://cf-v1.uapis.cn/api/deletetl.php?token="@ + token + "&nodeid="@ + decimal(tunnel_id)
        + "&userid="@ + user_id
}

/// URL of the request that deletes tunnel `tunnel_id`.
pub fn rm_tunnel_url(token: &str, tunnel_id: u32, user_id: &str) -> (r: String)
    ensures
        r@ == rm_tunnel_url_of(token@, tunnel_id as nat, user_id@),
{
    let mut r = "https://cf-v1.uapis.cn/api/deletetl.php?token=".to_owned();
    r.append(token);
    r.append("&nodeid=");
    push_decimal(&mut r, tunnel_id);
    r.append("&userid=");
    r.append(user_id);
    r
}

/// The node of each tunnel, in listing order.
pub open spec fn tunnel_nodes(tunnels: Seq<TunnelData>) -> Seq<Seq<char>> {
    tunnels.map_values(|t: TunnelData| t.node@)
}

/// The distinct values of `nodes`, each once, in order of first appearance.
pub open spec fn distinct_nodes(nodes: Seq<Seq<char>>) -> Seq<Seq<char>>
    decreases nodes.len(),
{
    if nodes.len() == 0 {
        Seq::empty()
    } else {
        let seen = distinct_nodes(nodes.drop_last());
        if seen.contains(nodes.last()) {
            seen
        } else {
            seen.push(nodes.last())
        }
    }
}

/// Whether some string of `v` equals `x`.
fn contains_str(v: &Vec<String>, x: &str) -> (r: bool)
    ensures
        r == string_views(v@).contains(x@),
{
    let mut k: usize = 0;
    while k < v.len()
        invariant
            k <= v@.len(),
            forall|j: int| 0 <= j < k ==> v@[j]@ != x@,
        decreases v@.len() - k,
    {
        if str_eq(v[k].as_str(), x) {
            assert(string_views(v@)[k as int] == x@);
            return true;
        }
        k = k + 1;
    }
    assert forall|j: int| 0 <= j < string_views(v@).len() implies string_views(v@)[j] != x@ by {
        assert(string_views(v@)[j] == v@[j]@);
    }
    false
}

/// The nodes that host at least one of `tunnels`, each once, in order of
/// first appearance.
pub fn node_names(tunnels: &Vec<TunnelData>) -> (r: Vec<String>)
    ensures
        string_views(r@) == distinct_nodes(tunnel_nodes(tunnels@)),
{
    let ghost all = tunnel_nodes(tunnels@);
    let mut r: Vec<String> = Vec::new();
    let mut i: usize = 0;
    while i < tunnels.len()
        invariant
            i <= tunnels@.len(),
            all == tunnel_nodes(tunnels@),
            string_views(r@) == distinct_nodes(all.subrange(0, i as int)),
        decreases tunnels@.len() - i,
    {
        assert(all.subrange(0, i + 1).drop_last() =~= all.subrange(0, i as int));
        assert(all.subrange(0, i + 1).last() == tunnels@[i as int].node@);
        let node = tunnels[i].node.as_str();
        if !contains_str(&r, node) {
            let ghost before = string_views(r@);
            r.push(tunnels[i].node.clone());
            assert(string_views(r@) =~= before.push(tunnels@[i as int].node@));
        }
        i = i + 1;
    }
    assert(all.subrange(0, tunnels@.len() as int) =~= all);
    r
}

/// The positions in `nodes` that hold `node`, in increasing order.
pub open spec fn positions_of(nodes: Seq<Seq<char>>, node: Seq<char>) -> Seq<int>
    decreases nodes.len(),
{
    if nodes.len() == 0 {
        Seq::empty()
    } else {
        let earlier = positions_of(nodes.drop_last(), node);
        if nodes.last() == node {
            earlier.push(nodes.len() - 1)
        } else {
            earlier
        }
    }
}

/// The positions of the tunnels hosted on `node`, in listing order.
pub fn tunnels_on_node(tunnels: &Vec<TunnelData>, node: &str) -> (r: Vec<usize>)
    ensures
        r@.map_values(|i: usize| i as int) == positions_of(tunnel_nodes(tunnels@), node@),
{
    let ghost all = tunnel_nodes(tunnels@);
    let mut r: Vec<usize> = Vec::new();
    let mut i: usize = 0;
    while i < tunnels.len()
        invariant
            i <= tunnels@.len(),
            all == tunnel_nodes(tunnels@),
            r@.map_values(|i: usize| i as int) == positions_of(all.subrange(0, i as int), node@),
        decreases tunnels@.len() - i,
    {
        assert(all.subrange(0, i + 1).drop_last() =~= all.subrange(0, i as int));
        assert(all.subrange(0, i + 1).last() == tunnels@[i as int].node@);
        if str_eq(tunnels[i].node.as_str(), node) {
            let ghost before = r@.map_values(|i: usize| i as int);
            r.push(i);
            assert(r@.map_values(|i: usize| i as int) =~= before.push(i as int));
        }
        i = i + 1;
    }
    assert(all.subrange(0, tunnels@.len() as int) =~= all);
    r
}

} // verus!
