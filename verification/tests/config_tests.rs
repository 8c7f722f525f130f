use timr::cli::Query;
use timr::config::{parse_port, Config};

fn args() -> Vec<String> {
    vec![String::from("/opt/timr/timr"), String::from("show")]
}

#[test]
fn config_resolves_exec_path() {
    let a = args();
    let q = Query::new(&a);
    let c = Config::new(&q, String::from("127.0.0.1"), "8080", "EXEC_PATH/timr.db");
    assert_eq!(c.server_ip, "127.0.0.1");
    assert_eq!(c.server_port, 8080);
    assert_eq!(c.db_path, "/opt/timr/timr.db");
    assert_eq!(c.query.filepath, "/opt/timr");
}

#[test]
fn config_keeps_plain_path() {
    let a = args();
    let q = Query::new(&a);
    let c = Config::new(&q, String::from("0.0.0.0"), "+80", "/var/lib/timr.db");
    assert_eq!(c.server_port, 80);
    assert_eq!(c.db_path, "/var/lib/timr.db");
}

#[test]
fn parse_port_values() {
    assert_eq!(parse_port("8080"), Some(8080));
    assert_eq!(parse_port("0"), Some(0));
    assert_eq!(parse_port("65535"), Some(65535));
    assert_eq!(parse_port("65536"), None);
    assert_eq!(parse_port("eighty"), None);
    assert_eq!(parse_port(""), None);
}

#[test]
fn notify_url_format() {
    let a = args();
    let q = Query::new(&a);
    let c = Config::new(&q, String::from("127.0.0.1"), "8080", "db");
    assert_eq!(c.notify_url("start_task_notify"), "http://127.0.0.1:8080/start_task_notify");
    let c = Config::new(&q, String::from("localhost"), "7", "db");
    assert_eq!(c.notify_url("stop_task_notify"), "http://localhost:7/stop_task_notify");
}

#[test]
fn law_port_round_trip_all_ports() {
    let a = args();
    let q = Query::new(&a);
    let prefix = "http://h:";
    for port in 0..=u16::MAX {
        let c = Config { server_ip: String::from("h"), server_port: port, db_path: String::new(), query: &q };
        let url = c.notify_url("");
        let text = &url[prefix.len()..url.len() - 1];
        assert_eq!(parse_port(text), Some(port));
    }
}
