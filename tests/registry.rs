use michel_core::desktop::{config_root, plugins_list, tray_action};
use michel_core::{
    CustomPluginConfig, DesktopConfig, DisplayedPlugin, FsAccess, InfoCache, InfoStep,
    MichelConfig, MichelInstance, Plugin, PluginConfig, PluginHostConfig, PluginInfo, Preopen,
    RefreshFailure, RunPluginIndex, SandboxFilesystem, TrayAction,
};

fn s(x: &str) -> String {
    x.to_string()
}

fn info(id: &str) -> PluginInfo {
    PluginInfo {
        identifier: s(id),
        name: format!("{} plugin", id),
        description: format!("indexes {}", id),
        version: s("0.1.0"),
        icon: None,
        url: Some(s("https://example.org")),
    }
}

fn registry() -> MichelInstance<(), u32> {
    MichelInstance::new((), MichelConfig { name: s("Michel"), plugins_path: s("/plugins") })
}

#[test]
fn refresh_isolates_a_failing_plugin() {
    let mut m = registry();
    let outcomes: Vec<Result<Plugin<u32>, String>> = vec![
        Ok(Plugin::new(1, info("files"))),
        Err(s("not a component")),
        Ok(Plugin::new(3, info("mail"))),
    ];
    let failures = m.refresh_plugins(outcomes);
    assert_eq!(m.plugins().len(), 2);
    assert_eq!(m.plugins()[0].identifier(), s("files"));
    assert_eq!(m.plugins()[1].identifier(), s("mail"));
    assert_eq!(failures.len(), 1);
    assert!(matches!(&failures[0], RefreshFailure::Load(e) if e == "not a component"));
}

#[test]
fn refresh_replaces_previous_plugins() {
    let mut m = registry();
    m.refresh_plugins::<String>(vec![Ok(Plugin::new(1, info("a")))]);
    m.refresh_plugins::<String>(vec![Ok(Plugin::new(2, info("b")))]);
    assert_eq!(m.plugins().len(), 1);
    assert!(m.plugin(s("a")).is_none());
    assert_eq!(*m.plugin(s("b")).unwrap().instance(), 2);
}

#[test]
fn refresh_reports_duplicate_identifier() {
    let mut m = registry();
    let failures = m.refresh_plugins::<String>(vec![
        Ok(Plugin::new(1, info("a"))),
        Ok(Plugin::new(2, info("a"))),
    ]);
    assert_eq!(m.plugins().len(), 1);
    assert_eq!(*m.plugins()[0].instance(), 1);
    assert!(matches!(&failures[0], RefreshFailure::DuplicateIdentifier(id) if id == "a"));
}

#[test]
fn lookup_by_exact_identifier() {
    let mut m = registry();
    m.refresh_plugins::<String>(vec![Ok(Plugin::new(1, info("files"))), Ok(Plugin::new(2, info("mail")))]);
    assert_eq!(*m.plugin(s("mail")).unwrap().instance(), 2);
    assert!(m.plugin(s("Mail")).is_none());
    assert!(m.plugin(s("")).is_none());
    assert_eq!(m.config().name, s("Michel"));
}

#[test]
fn plugin_getters_read_metadata_and_config() {
    let p = Plugin::new(5u32, info("files"));
    assert_eq!(p.identifier(), s("files"));
    assert_eq!(p.name(), s("files plugin"));
    assert_eq!(p.description(), s("indexes files"));
    assert!(p.can_index());
    assert!(p.enabled());
    assert_eq!(p.infos().version, s("0.1.0"));
    assert_eq!(p.config().host.fs_access.len(), 0);
}

#[test]
fn info_is_asked_once_and_cached() {
    let mut c = InfoCache::new();
    assert_eq!(c.next_step(), InfoStep::CallGuest);
    c.record(info("files"));
    assert_eq!(c.next_step(), InfoStep::Cached(info("files")));
    assert_eq!(c.next_step(), InfoStep::Cached(info("files")));
    c.record(info("other"));
    assert_eq!(c.next_step(), InfoStep::Cached(info("files")));
}

#[test]
fn only_enabled_grants_are_visible() {
    let host = PluginHostConfig {
        enabled: true,
        fs_access: vec![
            FsAccess { host_path: s("/home/u/docs"), guest_path: s("/docs"), enabled: true, notify: false },
            FsAccess { host_path: s("/etc"), guest_path: s("/etc"), enabled: false, notify: true },
            FsAccess { host_path: s("/home/u/mail"), guest_path: s("/m"), enabled: true, notify: true },
        ],
    };
    assert_eq!(
        host.preopens(),
        vec![
            Preopen { host_path: s("/home/u/docs"), guest_path: s("/docs") },
            Preopen { host_path: s("/home/u/mail"), guest_path: s("/m") },
        ]
    );
}

#[test]
fn no_grants_means_nothing_visible() {
    let config = PluginConfig::initial();
    assert!(config.host.enabled);
    assert_eq!(config.host.preopens(), vec![]);
    let _custom: CustomPluginConfig = config.custom;
}

#[test]
fn requested_directories_start_disabled() {
    let config = PluginConfig::from_host_paths(vec![s("/a"), s("/b")]);
    assert!(config.host.enabled);
    assert_eq!(
        config.host.fs_access,
        vec![
            FsAccess { host_path: s("/a"), guest_path: s(""), enabled: false, notify: false },
            FsAccess { host_path: s("/b"), guest_path: s(""), enabled: false, notify: false },
        ]
    );
    assert_eq!(config.host.preopens(), vec![]);
}

#[test]
fn desktop_config_defaults_to_michel() {
    assert_eq!(DesktopConfig::default().username, s("michel"));
}

#[test]
fn plugins_list_shows_each_plugin() {
    let mut m = registry();
    m.refresh_plugins::<String>(vec![Ok(Plugin::new(1, info("files")))]);
    assert_eq!(
        plugins_list(&m),
        vec![DisplayedPlugin {
            identifier: s("files"),
            name: s("files plugin"),
            description: s("indexes files"),
            can_index: true,
            enabled: true,
        }]
    );
    let request = RunPluginIndex { identifier: s("files") };
    assert!(m.plugin(request.identifier).is_some());
}

#[test]
fn config_root_prefers_xdg_then_home() {
    assert_eq!(config_root(Some(s("/x")), Some(s("/h"))), Some(s("/x")));
    assert_eq!(config_root(None, Some(s("/h"))), Some(s("/h")));
    assert_eq!(config_root(None, None), None);
}

#[test]
fn tray_items_map_to_actions() {
    assert_eq!(tray_action(&s("quit")), TrayAction::Quit);
    assert_eq!(tray_action(&s("show")), TrayAction::ToggleSearchBar);
    assert_eq!(tray_action(&s("settings")), TrayAction::ShowSettings);
    assert_eq!(tray_action(&s("Quit")), TrayAction::Nothing);
}

#[test]
fn sandbox_filesystem_shows_enabled_grants_at_guest_path() {
    let host = PluginHostConfig {
        enabled: true,
        fs_access: vec![
            FsAccess { host_path: s("/srv/a"), guest_path: s("/a"), enabled: false, notify: false },
            FsAccess { host_path: s("/srv/b"), guest_path: s("/data"), enabled: true, notify: false },
        ],
    };
    let fs = SandboxFilesystem::new(&host);
    assert_eq!(fs.preopens(), &vec![Preopen { host_path: s("/srv/b"), guest_path: s("/data") }]);
}
