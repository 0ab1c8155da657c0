use provider_guard::ccusage::build_ccusage_shell_script;

#[test]
fn ccusage_script_layout() {
    let s = build_ccusage_shell_script();
    assert!(s.starts_with("export PATH=\"/opt/homebrew/bin:/usr/local/bin:$PATH\"\n"));
    assert!(s.ends_with("fi\nccusage --json --days 30 --offline"));
}
