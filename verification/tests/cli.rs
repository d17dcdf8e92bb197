use ssroute::cli::{
    config_candidates, find_config, parse_config_flag, requested, MissingPath, Request,
};

fn args(v: &[&str]) -> Vec<String> {
    v.iter().map(|s| s.to_string()).collect()
}

#[test]
fn version_goes_before_help() {
    assert_eq!(requested(&args(&["ssroute"])), Request::Run);
    assert_eq!(requested(&args(&["ssroute", "-h"])), Request::Help);
    assert_eq!(requested(&args(&["ssroute", "--help"])), Request::Help);
    assert_eq!(requested(&args(&["ssroute", "--help", "-V"])), Request::Version);
    assert_eq!(requested(&args(&["ssroute", "--version"])), Request::Version);
    assert_eq!(requested(&args(&["ssroute", "-v"])), Request::Run);
}

#[test]
fn path_of_the_configuration() {
    assert_eq!(parse_config_flag(&args(&["ssroute"])), Ok(None));
    let path = Some("/tmp/x.conf".to_string());
    assert_eq!(parse_config_flag(&args(&["ssroute", "--config", "/tmp/x.conf"])), Ok(path.clone()));
    assert_eq!(parse_config_flag(&args(&["ssroute", "--config=/tmp/x.conf"])), Ok(path.clone()));
    assert_eq!(
        parse_config_flag(&args(&["ssroute", "--config=/tmp/x.conf", "--config"])),
        Ok(path)
    );
    assert_eq!(parse_config_flag(&args(&["ssroute", "--config="])), Ok(Some("".to_string())));
    assert_eq!(parse_config_flag(&args(&["ssroute", "--config"])), Err(MissingPath));
    assert_eq!(MissingPath.message(), "--config requires a path argument");
}

#[test]
fn where_the_configuration_is_looked_for() {
    let named = Some("x.conf".to_string());
    assert_eq!(config_candidates(&named), vec!["x.conf"]);
    assert_eq!(config_candidates(&None), vec!["ssroute.conf", "/etc/ssroute/ssroute.conf"]);
    assert_eq!(find_config(&named, &vec![true]).unwrap(), "x.conf");
    assert_eq!(find_config(&None, &vec![true, true]).unwrap(), "ssroute.conf");
    assert_eq!(find_config(&None, &vec![false, true]).unwrap(), "/etc/ssroute/ssroute.conf");
    assert_eq!(
        find_config(&named, &vec![false]).err().unwrap().message(),
        "config file not found: x.conf"
    );
    assert_eq!(
        find_config(&None, &vec![false, false]).err().unwrap().message(),
        "config file not found. Searched: ssroute.conf, /etc/ssroute/ssroute.conf. \
         Use --config <path> to specify."
    );
}
