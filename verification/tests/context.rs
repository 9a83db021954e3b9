use polars_bio::context::{tuning_options, PyBioSessionContext};

fn pair(key: &str, value: &str) -> (String, String) {
    (key.to_string(), value.to_string())
}

#[test]
fn new_context_has_no_options() {
    let context = PyBioSessionContext::new("seed".to_string(), "/tmp/catalog".to_string());
    assert_eq!(context.seed(), "seed");
    assert_eq!(context.catalog_dir(), "/tmp/catalog");
    assert_eq!(context.get_option("datafusion.execution.target_partitions"), None);
    assert!(context.sync_options().is_empty());
}

#[test]
fn set_option_is_kept_by_default() {
    let mut context = PyBioSessionContext::new("s".to_string(), "c".to_string());
    context.set_option("a", "1", Some(false));
    context.set_option("b", "2", None);
    assert_eq!(context.get_option("a"), Some("1"));
    assert_eq!(context.get_option("b"), Some("2"));
    assert_eq!(context.get_option("c"), None);
    assert_eq!(context.sync_options(), vec![pair("a", "1"), pair("b", "2")]);
    assert_eq!(context.seed(), "s");
    assert_eq!(context.catalog_dir(), "c");
}

#[test]
fn temporary_option_is_not_kept() {
    let mut context = PyBioSessionContext::new("s".to_string(), "c".to_string());
    context.set_option("a", "1", None);
    context.set_option("a", "9", Some(true));
    context.set_option("b", "2", Some(true));
    assert_eq!(context.get_option("a"), Some("1"));
    assert_eq!(context.get_option("b"), None);
    assert_eq!(context.sync_options(), vec![pair("a", "1")]);
}

#[test]
fn set_option_replaces_the_value_of_a_key() {
    let mut context = PyBioSessionContext::new("s".to_string(), "c".to_string());
    context.set_option("a", "1", None);
    context.set_option("b", "2", None);
    context.set_option("a", "3", None);
    assert_eq!(context.get_option("a"), Some("3"));
    assert_eq!(context.get_option("b"), Some("2"));
    assert_eq!(context.sync_options(), vec![pair("a", "3"), pair("b", "2")]);
}

#[test]
fn sync_options_can_be_repeated() {
    let mut context = PyBioSessionContext::new("s".to_string(), "c".to_string());
    context.set_option("a", "1", None);
    assert_eq!(context.sync_options(), context.sync_options());
}

#[test]
fn tuning_options_of_a_new_session() {
    assert_eq!(
        tuning_options(),
        vec![
            pair("datafusion.optimizer.repartition_joins", "false"),
            pair("datafusion.execution.coalesce_batches", "false"),
        ]
    );
}
