use alphatheta_connect::error::Error;
use alphatheta_connect::localdb::database_adapter::DatabasePreference;
use alphatheta_connect::network::{
    connect_plan, generate_stagehand_device_id, plan_connect, ConnectMethod, InterfaceInfo, NetworkConfig, NetworkConfigUpdate,
};

fn iface() -> InterfaceInfo {
    InterfaceInfo { name: "en0".into(), address: [10, 0, 0, 5], netmask: [255, 255, 255, 0] }
}

fn no_change() -> NetworkConfigUpdate {
    NetworkConfigUpdate {
        iface: None,
        vcdj_id: None,
        vcdj_name: None,
        full_startup: None,
        announce_to_stagehand: None,
        database_preference: None,
        connect_method: None,
    }
}

#[test]
fn configure_changes_only_the_given_fields() {
    let mut c = NetworkConfig::default();
    c.configure(NetworkConfigUpdate { vcdj_id: Some(9), database_preference: Some(DatabasePreference::Pdb), ..no_change() });
    assert_eq!(c.vcdj_id, Some(9));
    assert_eq!(c.database_preference, DatabasePreference::Pdb);
    assert_eq!(c.connect_method, ConnectMethod::Active);
    let before = c.clone();
    c.configure(no_change());
    assert_eq!(c, before);
}

#[test]
fn connecting_needs_an_interface() {
    let mut c = NetworkConfig::default();
    match plan_connect(&mut c, 200) {
        Err(Error::State(m)) => assert!(m.starts_with("Network must be configured")),
        other => panic!("{other:?}"),
    }
    assert_eq!(c, NetworkConfig::default());
}

#[test]
fn default_identity_per_connect_method() {
    let mut c = NetworkConfig::default();
    c.iface = Some(iface());
    let active = plan_connect(&mut c, 200).unwrap();
    assert_eq!(active.vcdj_id, 7);
    assert_eq!(active.vcdj_name, None);
    assert_eq!(c.vcdj_id, Some(7));
    let mut c = NetworkConfig { iface: Some(iface()), connect_method: ConnectMethod::Stagehand, ..NetworkConfig::default() };
    let stagehand = plan_connect(&mut c, 200).unwrap();
    assert_eq!(stagehand.vcdj_id, 200);
    assert_eq!(stagehand.vcdj_name.as_deref(), Some("Stagehand"));
    c.vcdj_id = Some(12);
    c.vcdj_name = Some("Booth".into());
    let named = plan_connect(&mut c, 200).unwrap();
    assert_eq!((named.vcdj_id, named.vcdj_name.as_deref()), (12, Some("Booth")));
}

#[test]
fn stagehand_identity_survives_a_reconnect() {
    let mut c = NetworkConfig { iface: Some(iface()), connect_method: ConnectMethod::Stagehand, ..NetworkConfig::default() };
    let first = plan_connect(&mut c, 151).unwrap();
    let second = plan_connect(&mut c, 188).unwrap();
    assert_eq!(second.vcdj_id, first.vcdj_id);
    assert_eq!(second.vcdj_name, first.vcdj_name);
    // ...and the chosen device number is kept in the config.
    assert_eq!(c.vcdj_id, Some(first.vcdj_id));
}

#[test]
fn stagehand_numbers_are_drawn_from_the_stagehand_range() {
    for _ in 0..200 {
        let id = generate_stagehand_device_id();
        assert!((141..=211).contains(&id));
    }
}

#[test]
fn a_drawn_stagehand_identity_survives_a_reconnect() {
    let mut c = NetworkConfig { iface: Some(iface()), connect_method: ConnectMethod::Stagehand, ..NetworkConfig::default() };
    let first = connect_plan(&mut c).unwrap();
    assert!((141..=211).contains(&first.vcdj_id));
    assert_eq!(first.vcdj_name.as_deref(), Some("Stagehand"));
    let second = connect_plan(&mut c).unwrap();
    assert_eq!(second.vcdj_id, first.vcdj_id);
    assert_eq!(second.vcdj_name, first.vcdj_name);
    assert_eq!(c.vcdj_id, Some(first.vcdj_id));
}

#[test]
fn autoconfig_draws_a_stagehand_number_only_in_stagehand_mode() {
    let mut active = NetworkConfig::default();
    active.autoconfig(iface());
    assert_eq!(active.vcdj_id, Some(7));
    assert_eq!(active.iface, Some(iface()));

    let mut stagehand = NetworkConfig { connect_method: ConnectMethod::Stagehand, ..NetworkConfig::default() };
    stagehand.autoconfig(iface());
    assert!((141..=211).contains(&stagehand.vcdj_id.unwrap()));
}

#[test]
fn connecting_without_an_interface_fails() {
    let mut c = NetworkConfig::default();
    assert!(matches!(connect_plan(&mut c), Err(Error::State(_))));
    assert_eq!(c, NetworkConfig::default());
}
