use pipewire_native::error::Error;
use pipewire_native::loader::{FactoryStep, Loader, PluginStep};

fn fresh() -> Loader {
    Loader::new(
        vec!["/usr/lib64/spa-0.2".to_string(), "/opt/spa".to_string()],
        "support/libspa-support".to_string(),
    )
}

#[test]
fn test_loader_search_order_and_caches() {
    let mut loader = fresh();

    assert_eq!(loader.effective_lib(None), "support/libspa-support");
    assert_eq!(loader.effective_lib(Some("support/libspa-x")), "support/libspa-x");

    // The walk proposes each directory's candidate in order, then gives up.
    match loader.plugin_step("support/libspa-support", 0) {
        PluginStep::TryOpen { path } => {
            assert_eq!(path, "/usr/lib64/spa-0.2/support/libspa-support.so");
        }
        _ => panic!("a fresh loader must propose opening the first candidate"),
    }
    match loader.plugin_step("support/libspa-support", 1) {
        PluginStep::TryOpen { path } => {
            assert_eq!(path, "/opt/spa/support/libspa-support.so");
        }
        _ => panic!("the second directory comes after a failed open"),
    }
    assert!(matches!(loader.plugin_step("support/libspa-support", 2), PluginStep::GiveUp));

    // A recorded open answers later walks from the cache.
    loader
        .record_plugin("/opt/spa/support/libspa-support.so".to_string(), 41)
        .unwrap();
    match loader.plugin_step("support/libspa-support", 1) {
        PluginStep::UseCached { plugin, path } => {
            assert_eq!(plugin, 41);
            assert_eq!(path, "/opt/spa/support/libspa-support.so");
        }
        _ => panic!("a cached candidate must be used"),
    }
    assert_eq!(
        loader.record_plugin("/opt/spa/support/libspa-support.so".to_string(), 99),
        Err(Error::Invalid)
    );
}

#[test]
fn test_loader_factory_keys() {
    let mut loader = fresh();
    let path = "/opt/spa/support/libspa-support.so";

    match loader.factory_step(path, "support.log") {
        FactoryStep::Probe { key } => {
            assert_eq!(key, "/opt/spa/support/libspa-support.so/support.log");
            loader.record_factory(key, 7).unwrap();
        }
        _ => panic!("an unprobed factory must be probed"),
    }
    match loader.factory_step(path, "support.log") {
        FactoryStep::UseCached { factory } => assert_eq!(factory, 7),
        _ => panic!("a probed factory must be cached"),
    }
    assert!(matches!(loader.factory_step(path, "support.cpu"), FactoryStep::Probe { .. }));

    assert_eq!(loader.plugin_missing_error(), Error::NotFound);
    assert_eq!(loader.factory_missing_error(), Error::NotFound);
    assert_eq!(loader.init_failed_error(), Error::Other);
}
