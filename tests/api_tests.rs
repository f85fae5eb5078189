use chml_cli::api::{config_url, join_names, node_info_url, node_names, push_decimal, rm_tunnel_url, tunnels_on_node, TunnelData};

fn tunnel(id: u32, name: &str, node: &str) -> TunnelData {
    TunnelData {
        id,
        name: name.to_string(),
        localip: "127.0.0.1".to_string(),
        tunnel_type: "tcp".to_string(),
        nport: 22,
        dorp: "10022".to_string(),
        node: node.to_string(),
        state: "true".to_string(),
        userid: 7,
        encryption: "false".to_string(),
        compression: "false".to_string(),
        ap: String::new(),
        uptime: None,
        client_version: Some("0.51.2".to_string()),
        today_traffic_in: 0,
        today_traffic_out: 0,
        cur_conns: 0,
        nodestate: "online".to_string(),
        ip: "1.2.3.4".to_string(),
    }
}

#[test]
fn node_info_url_has_token() {
    assert_eq!(node_info_url("abc"), "https://cf-v2.uapis.cn/tunnel?token=abc");
}

#[test]
fn config_url_lists_tunnels() {
    let names = vec!["ssh".to_string(), "web".to_string()];
    assert_eq!(
        config_url("tok", "HK-1", &names),
        "https://cf-v2.uapis.cn/tunnel_config?token=tok&node=HK-1&tunnel_names=ssh,web"
    );
    assert_eq!(
        config_url("tok", "n", &Vec::new()),
        "https://cf-v2.uapis.cn/tunnel_config?token=tok&node=n&tunnel_names="
    );
}

#[test]
fn rm_url_uses_decimal_id() {
    assert_eq!(
        rm_tunnel_url("tok", 40213, "99"),
        "https://cf-v1.uapis.cn/api/deletetl.php?token=tok&nodeid=40213&userid=99"
    );
    assert_eq!(
        rm_tunnel_url("t", 0, "u"),
        "https://cf-v1.uapis.cn/api/deletetl.php?token=t&nodeid=0&userid=u"
    );
}

#[test]
fn decimal_digits() {
    for n in [0u32, 7, 10, 99, 100, 123456, u32::MAX] {
        let mut s = String::from("#");
        push_decimal(&mut s, n);
        assert_eq!(s, format!("#{}", n));
    }
}

#[test]
fn names_are_comma_joined() {
    assert_eq!(join_names(&vec![]), "");
    assert_eq!(join_names(&vec!["a".to_string()]), "a");
    assert_eq!(join_names(&vec!["a".to_string(), "b".to_string(), "c".to_string()]), "a,b,c");
}

#[test]
fn nodes_are_grouped_in_first_seen_order() {
    let ts = vec![tunnel(1, "a", "HK"), tunnel(2, "b", "US"), tunnel(3, "c", "HK"), tunnel(4, "d", "JP")];
    assert_eq!(node_names(&ts), vec!["HK", "US", "JP"]);
    assert_eq!(tunnels_on_node(&ts, "HK"), vec![0, 2]);
    assert_eq!(tunnels_on_node(&ts, "JP"), vec![3]);
    assert!(tunnels_on_node(&ts, "DE").is_empty());
    assert!(node_names(&Vec::new()).is_empty());
}
