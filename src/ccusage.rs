use vstd::prelude::*;

verus! {

/// The shell setup that runs before `ccusage`: it puts common install
/// locations and Node version managers on `PATH` without an interactive shell.
pub open spec fn ccusage_prelude() -> Seq<char> {
    r#"export PATH="/opt/homebrew/bin:/usr/local/bin:$PATH"

if [ -z "${NVM_DIR:-}" ]; then
  export NVM_DIR="$HOME/.nvm"
fi

if [ -s "$NVM_DIR/nvm.sh" ]; then
  . "$NVM_DIR/nvm.sh" >/dev/null 2>&1 || true
  if command -v nvm >/dev/null 2>&1; then
    nvm use --silent default >/dev/null 2>&1 || nvm use --silent >/dev/null 2>&1 || true
  fi
fi

if [ -s "$HOME/.asdf/asdf.sh" ]; then
  . "$HOME/.asdf/asdf.sh" >/dev/null 2>&1 || true
fi

if [ -s "$HOME/.volta/load.sh" ]; then
  . "$HOME/.volta/load.sh" >/dev/null 2>&1 || true
fi"#@
}

/// The command line that asks `ccusage` for thirty days of usage as JSON.
pub open spec fn ccusage_command() -> Seq<char> {
    "\nccusage --json --days 30 --offline"@
}

/// The script that a login shell runs to collect usage from `ccusage`.
pub fn build_ccusage_shell_script() -> (r: String)
    ensures
        r@ == ccusage_prelude() + ccusage_command(),
{
    let mut r = String::from_str(
        r#"export PATH="/opt/homebrew/bin:/usr/local/bin:$PATH"

if [ -z "${NVM_DIR:-}" ]; then
  export NVM_DIR="$HOME/.nvm"
fi

if [ -s "$NVM_DIR/nvm.sh" ]; then
  . "$NVM_DIR/nvm.sh" >/dev/null 2>&1 || true
  if command -v nvm >/dev/null 2>&1; then
    nvm use --silent default >/dev/null 2>&1 || nvm use --silent >/dev/null 2>&1 || true
  fi
fi

if [ -s "$HOME/.asdf/asdf.sh" ]; then
  . "$HOME/.asdf/asdf.sh" >/dev/null 2>&1 || true
fi

if [ -s "$HOME/.volta/load.sh" ]; then
  . "$HOME/.volta/load.sh" >/dev/null 2>&1 || true
fi"#,
    );
    r.append("\nccusage --json --days 30 --offline");
    r
}

} // verus!
