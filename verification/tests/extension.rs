use mermaid_quicklook::extension::language_server_command;

fn env(vars: &[(&str, &str)]) -> Vec<(String, String)> {
    vars.iter().map(|(k, v)| (k.to_string(), v.to_string())).collect()
}

#[test]
fn only_listed_variables_are_forwarded() {
    let shell = env(&[
        ("AWS_SECRET_ACCESS_KEY", "secret"),
        ("PATH", "/bin"),
        ("HOME", "/h"),
        ("MERMAID_QUICKLOOK_LSP", "/lsp"),
        ("DISPLAY", ":0"),
        ("WAYLAND_DISPLAY", "w"),
        ("XDG_RUNTIME_DIR", "/run"),
        ("DBUS_SESSION_BUS_ADDRESS", "d"),
        ("XDG_DATA_HOME", "/data"),
        ("XDG_CONFIG_HOME", "/config"),
        ("LANG", "C"),
        ("LC_ALL", "C"),
        ("TERM", "xterm"),
        ("MMDC_PATH", "/mmdc"),
        ("path", "no"),
        ("PATHX", "no"),
    ]);
    let c = language_server_command(&shell, None, None).unwrap_or_else(|m| panic!("{}", m));
    assert_eq!(c.command, "/lsp");
    assert!(c.args.is_empty());
    let mut expected = shell.clone();
    expected.retain(|(k, _)| {
        !matches!(k.as_str(), "AWS_SECRET_ACCESS_KEY" | "MERMAID_QUICKLOOK_LSP" | "path" | "PATHX")
    });
    assert_eq!(c.env, expected);
    assert_eq!(c.env.len(), 12);
}

#[test]
fn found_mmdc_replaces_the_shells() {
    let shell = env(&[("MMDC_PATH", "/old"), ("PATH", "/bin"), ("MMDC_PATH", "/older")]);
    let lsp = Some("/bin/lsp".to_string());
    let c = language_server_command(&shell, lsp.clone(), Some("/new".to_string())).ok().unwrap();
    assert_eq!(c.env, env(&[("PATH", "/bin"), ("MMDC_PATH", "/new")]));
    let c = language_server_command(&shell, lsp, None).ok().unwrap();
    assert_eq!(c.env, shell);
}

#[test]
fn binary_is_overridden_found_or_missed() {
    let shell = env(&[("MERMAID_QUICKLOOK_LSP", "/a"), ("MERMAID_QUICKLOOK_LSP", "/b")]);
    let lsp = Some("/found".to_string());
    assert_eq!(language_server_command(&shell, lsp.clone(), None).ok().unwrap().command, "/a");
    assert_eq!(language_server_command(&vec![], lsp, None).ok().unwrap().command, "/found");
    assert_eq!(
        language_server_command(&vec![], None, None).err().unwrap(),
        "`mermaid-quicklook-lsp` not found on PATH. Build and install it with \
         ./scripts/install.sh, or set MERMAID_QUICKLOOK_LSP to its location."
    );
}
