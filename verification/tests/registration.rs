use idmnoads::registration::{
    chrome_manifest, escape_backslashes, firefox_manifest, host_candidates, registry_entries,
};
use idmnoads::window::{hides_on_close, tray_action, TrayAction};

#[test]
fn escape_doubles_backslashes() {
    assert_eq!(escape_backslashes("C:\\Program Files\\app.exe"), "C:\\\\Program Files\\\\app.exe");
    assert_eq!(escape_backslashes("/usr/bin/x"), "/usr/bin/x");
}

#[test]
fn manifests_text() {
    let host = "C:\\A\\idmnoads-host.exe";
    let expected_chrome = format!(
        r#"{{
  "name": "com.idmnoads.host",
  "description": "IDM No Ads native messaging host",
  "path": "{}",
  "type": "stdio",
  "allowed_origins": [ "chrome-extension://ikbamigoaahjngjceemkppoimlphgmii/", "chrome-extension://hbommjcibnllhahdgcjkkbjikbifmenk/" ]
}}"#,
        host.replace('\\', "\\\\")
    );
    assert_eq!(chrome_manifest(host), expected_chrome);
    let expected_firefox = format!(
        r#"{{
  "name": "com.idmnoads.host",
  "description": "IDM No Ads native messaging host",
  "path": "{}",
  "type": "stdio",
  "allowed_extensions": [ "idmnoads@hostingrakyat" ]
}}"#,
        host.replace('\\', "\\\\")
    );
    assert_eq!(firefox_manifest(host), expected_firefox);
}

#[test]
fn registry_entries_list() {
    let e = registry_entries("c.json", "f.json");
    assert_eq!(e.len(), 5);
    assert_eq!(e[0], (r"Software\Google\Chrome\NativeMessagingHosts\com.idmnoads.host".to_string(), "c.json".to_string()));
    assert_eq!(e[3].0, r"Software\BraveSoftware\Brave-Browser\NativeMessagingHosts\com.idmnoads.host");
    assert_eq!(e[4], (r"Software\Mozilla\NativeMessagingHosts\com.idmnoads.host".to_string(), "f.json".to_string()));
    assert_eq!(host_candidates(), vec!["idmnoads-host.exe", "idmnoads-host-x86_64-pc-windows-msvc.exe"]);
}

#[test]
fn window_decisions() {
    assert!(hides_on_close(None));
    assert!(!hides_on_close(Some(false)));
    assert!(hides_on_close(Some(true)));
    assert_eq!(tray_action("show"), TrayAction::Show);
    assert_eq!(tray_action("quit"), TrayAction::Quit);
    assert_eq!(tray_action("other"), TrayAction::Ignore);
}
