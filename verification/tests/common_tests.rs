use hbbs::common::{arg_name, epoch_secs_or_zero, replace_underscores, get_arg, get_arg_or, get_servers, now, server_candidates, server_lookup_target};

#[test]
fn option_names_become_variable_names() {
    assert_eq!(arg_name("rendezvous_servers"), "RENDEZVOUS-SERVERS");
    assert_eq!(arg_name("software-url"), "SOFTWARE-URL");
    assert_eq!(arg_name("mask"), "MASK");
    assert_eq!(arg_name("straße_x"), "STRASSE-X");
    assert!(!arg_name("a_b_c").contains('_'));
}

#[test]
fn option_values() {
    assert_eq!(get_arg(Some("21116".to_string())), "21116");
    assert_eq!(get_arg(None), "");
    assert_eq!(get_arg_or(None, "dflt".to_string()), "dflt");
    assert_eq!(get_arg_or(Some("v".to_string()), "dflt".to_string()), "v");
}

#[test]
fn server_lookup_targets() {
    assert_eq!(server_lookup_target("example.com"), "example.com:0");
    assert_eq!(server_lookup_target("example.com:21116"), "example.com:21116");
}

#[test]
fn server_lists() {
    assert_eq!(server_candidates("a,,b,"), vec!["a".to_string(), "b".to_string()]);
    assert_eq!(server_candidates(""), Vec::<String>::new());
    assert_eq!(get_servers("a,,b,c", &vec![true, false, true]), vec!["a".to_string(), "c".to_string()]);
}

#[test]
fn clock_is_after_the_epoch() {
    assert!(now() > 1_600_000_000);
}

#[test]
fn clock_before_the_epoch_counts_as_zero() {
    assert_eq!(epoch_secs_or_zero(None), 0);
    assert_eq!(epoch_secs_or_zero(Some(1_700_000_000)), 1_700_000_000);
}

#[test]
fn underscores_become_dashes() {
    assert_eq!(replace_underscores("RENDEZVOUS_SERVERS"), "RENDEZVOUS-SERVERS");
    assert_eq!(replace_underscores("_a__"), "-a--");
    assert_eq!(replace_underscores(""), "");
}
