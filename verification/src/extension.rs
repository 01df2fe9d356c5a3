//! How the editor's extension starts the language server.

use crate::text;
use vstd::prelude::*;

verus! {

pub const LSP_BINARY: &'static str = "mermaid-quicklook-lsp";

pub const LSP_PATH_OVERRIDE: &'static str = "MERMAID_QUICKLOOK_LSP";

pub const MMDC_PATH: &'static str = "MMDC_PATH";

/// A command line and the environment that it is started with.
pub struct Command {
    pub command: String,
    pub args: Vec<String>,
    pub env: Vec<(String, String)>,
}

/// Environment variables as text.
pub open spec fn variables(env: Seq<(String, String)>) -> Seq<(Seq<char>, Seq<char>)> {
    env.map_values(|v: (String, String)| (v.0@, v.1@))
}

/// The variables that the server gets to see: PATH/HOME to locate and run the tools, plus the
/// display/session handles the `zed` GUI and Chromium need to reach the user's desktop.
pub open spec fn allowed(key: Seq<char>) -> bool {
    ||| key == "PATH"@
    ||| key == "HOME"@
    ||| key == "DISPLAY"@
    ||| key == "WAYLAND_DISPLAY"@
    ||| key == "XDG_RUNTIME_DIR"@
    ||| key == "DBUS_SESSION_BUS_ADDRESS"@
    ||| key == "XDG_DATA_HOME"@
    ||| key == "XDG_CONFIG_HOME"@
    ||| key == "LANG"@
    ||| key == "LC_ALL"@
    ||| key == "TERM"@
    ||| key == MMDC_PATH@
}

fn is_allowed(key: &str) -> (r: bool)
    ensures
        r == allowed(key@),
{
    text::same_text(key, "PATH") || text::same_text(key, "HOME") || text::same_text(key, "DISPLAY")
        || text::same_text(key, "WAYLAND_DISPLAY") || text::same_text(key, "XDG_RUNTIME_DIR")
        || text::same_text(key, "DBUS_SESSION_BUS_ADDRESS") || text::same_text(key, "XDG_DATA_HOME")
        || text::same_text(key, "XDG_CONFIG_HOME") || text::same_text(key, "LANG")
        || text::same_text(key, "LC_ALL") || text::same_text(key, "TERM") || text::same_text(
        key,
        MMDC_PATH,
    )
}

/// The value of the first variable named `key`.
pub open spec fn lookup(env: Seq<(Seq<char>, Seq<char>)>, key: Seq<char>) -> Option<Seq<char>>
    decreases env.len(),
{
    if env.len() == 0 {
        None
    } else if env.first().0 == key {
        Some(env.first().1)
    } else {
        lookup(env.drop_first(), key)
    }
}

/// The variables that the server gets to see, in order.
pub open spec fn forwarded(env: Seq<(Seq<char>, Seq<char>)>) -> Seq<(Seq<char>, Seq<char>)> {
    env.filter(|v: (Seq<char>, Seq<char>)| allowed(v.0))
}

/// The variables that are not named `key`, in order.
pub open spec fn without(env: Seq<(Seq<char>, Seq<char>)>, key: Seq<char>) -> Seq<
    (Seq<char>, Seq<char>),
> {
    env.filter(|v: (Seq<char>, Seq<char>)| v.0 != key)
}

/// The environment that the server is started with: what it gets to see of the shell's, with
/// `MMDC_PATH` saying where the Mermaid CLI was found, if it was.
pub open spec fn server_env(env: Seq<(Seq<char>, Seq<char>)>, mmdc: Option<Seq<char>>) -> Seq<
    (Seq<char>, Seq<char>),
> {
    match mmdc {
        Some(path) => without(forwarded(env), MMDC_PATH@).push((MMDC_PATH@, path)),
        None => forwarded(env),
    }
}

/// Where the server's binary is: where the shell's environment says, and else where it was found.
pub open spec fn server_binary(
    env: Seq<(Seq<char>, Seq<char>)>,
    found: Option<Seq<char>>,
) -> Option<Seq<char>> {
    match lookup(env, LSP_PATH_OVERRIDE@) {
        Some(path) => Some(path),
        None => found,
    }
}

/// A string that may be missing, as text.
pub open spec fn optional(s: Option<String>) -> Option<Seq<char>> {
    match s {
        Some(s) => Some(s@),
        None => None,
    }
}

proof fn lemma_lookup(env: Seq<(Seq<char>, Seq<char>)>, key: Seq<char>, i: int)
    requires
        0 <= i <= env.len(),
        forall|k: int| 0 <= k < i ==> (#[trigger] env[k]).0 != key,
    ensures
        i < env.len() && env[i].0 == key ==> lookup(env, key) == Some(env[i].1),
        i == env.len() ==> lookup(env, key) is None,
    decreases i,
{
    if i > 0 {
        let t = env.drop_first();
        assert(env[0].0 != key);
        assert forall|k: int| 0 <= k < i - 1 implies (#[trigger] t[k]).0 != key by {
            assert(t[k] == env[k + 1]);
        }
        lemma_lookup(t, key, i - 1);
    }
}

fn find(env: &Vec<(String, String)>, key: &str) -> (r: Option<String>)
    ensures
        optional(r) == lookup(variables(env@), key@),
{
    let ghost vars = variables(env@);
    let mut i: usize = 0;
    while i < env.len()
        invariant
            i <= env.len(),
            vars == variables(env@),
            forall|k: int| 0 <= k < i ==> (#[trigger] vars[k]).0 != key@,
        decreases env.len() - i,
    {
        let var = &env[i];
        assert(vars[i as int] == (var.0@, var.1@));
        if text::same_text(var.0.as_str(), key) {
            proof {
                lemma_lookup(vars, key@, i as int);
            }
            return Some(var.1.clone());
        }
        i = i + 1;
    }
    proof {
        lemma_lookup(vars, key@, i as int);
    }
    None
}

fn forward(env: &Vec<(String, String)>) -> (r: Vec<(String, String)>)
    ensures
        variables(r@) == forwarded(variables(env@)),
{
    let ghost vars = variables(env@);
    let mut r: Vec<(String, String)> = Vec::new();
    let mut i: usize = 0;
    assert(forwarded(vars.take(0)) =~= Seq::<(Seq<char>, Seq<char>)>::empty()) by {
        reveal(Seq::filter);
    }
    while i < env.len()
        invariant
            i <= env.len(),
            vars == variables(env@),
            variables(r@) == forwarded(vars.take(i as int)),
        decreases env.len() - i,
    {
        let var = &env[i];
        proof {
            reveal(Seq::filter);
            assert(vars.take(i + 1).drop_last() =~= vars.take(i as int));
            assert(vars.take(i + 1).last() == (var.0@, var.1@));
        }
        if is_allowed(var.0.as_str()) {
            let ghost before = r@;
            r.push((var.0.clone(), var.1.clone()));
            assert(variables(r@) =~= variables(before).push((var.0@, var.1@)));
        }
        i = i + 1;
    }
    assert(vars.take(i as int) =~= vars);
    r
}

fn drop_named(env: &Vec<(String, String)>, key: &str) -> (r: Vec<(String, String)>)
    ensures
        variables(r@) == without(variables(env@), key@),
{
    let ghost vars = variables(env@);
    let mut r: Vec<(String, String)> = Vec::new();
    let mut i: usize = 0;
    assert(without(vars.take(0), key@) =~= Seq::<(Seq<char>, Seq<char>)>::empty()) by {
        reveal(Seq::filter);
    }
    while i < env.len()
        invariant
            i <= env.len(),
            vars == variables(env@),
            variables(r@) == without(vars.take(i as int), key@),
        decreases env.len() - i,
    {
        let var = &env[i];
        proof {
            reveal(Seq::filter);
            assert(vars.take(i + 1).drop_last() =~= vars.take(i as int));
            assert(vars.take(i + 1).last() == (var.0@, var.1@));
        }
        if !text::same_text(var.0.as_str(), key) {
            let ghost before = r@;
            r.push((var.0.clone(), var.1.clone()));
            assert(variables(r@) =~= variables(before).push((var.0@, var.1@)));
        }
        i = i + 1;
    }
    assert(vars.take(i as int) =~= vars);
    r
}

/// The command that starts the server, given the shell's environment and where the server's
/// binary and the Mermaid CLI were found.
///
/// The full shell environment carries secrets (AWS keys, tokens, ...) that the LSP would in turn
/// hand to mmdc/Chromium and the `zed` CLI. Forward only the variables those subprocesses
/// actually need. Rendering depends on the Mermaid CLI: resolving it here means the LSP gets an
/// absolute path even when Zed's own PATH differs from the user's shell PATH.
pub fn language_server_command(
    shell_env: &Vec<(String, String)>,
    lsp_found: Option<String>,
    mmdc_found: Option<String>,
) -> (r: Result<Command, String>)
    ensures
        match r {
            Ok(c) => {
                &&& server_binary(variables(shell_env@), optional(lsp_found)) == Some(c.command@)
                &&& c.args@.len() == 0
                &&& variables(c.env@) == server_env(variables(shell_env@), optional(mmdc_found))
            },
            Err(message) => {
                &&& server_binary(variables(shell_env@), optional(lsp_found)) is None
                &&& message@ == "`"@ + LSP_BINARY@
                    + "` not found on PATH. Build and install it with ./scripts/install.sh, or set "@
                    + LSP_PATH_OVERRIDE@ + " to its location."@
            },
        },
{
    let command: String = match find(shell_env, LSP_PATH_OVERRIDE) {
        Some(path) => path,
        None => match lsp_found {
            Some(path) => path,
            None => {
                return Err(
                    "`".to_owned().concat(LSP_BINARY).concat(
                        "` not found on PATH. Build and install it with ./scripts/install.sh, or set ",
                    ).concat(LSP_PATH_OVERRIDE).concat(" to its location."),
                );
            },
        },
    };
    let mut env = forward(shell_env);
    if let Some(mmdc) = mmdc_found {
        let ghost m = mmdc@;
        env = drop_named(&env, MMDC_PATH);
        let ghost before = env@;
        env.push((MMDC_PATH.to_owned(), mmdc));
        assert(variables(env@) =~= variables(before).push((MMDC_PATH@, m)));
    }
    Ok(Command { command: command, args: Vec::new(), env: env })
}

// ---------------------------------------------------------------------------------------------
// What the server gets to see
// ---------------------------------------------------------------------------------------------

/// The server gets to see no variable but those on the list, and each with the value that it has
/// in the shell, or, for `MMDC_PATH`, that says where the Mermaid CLI was found.
pub proof fn nothing_else_is_forwarded(
    env: Seq<(Seq<char>, Seq<char>)>,
    mmdc: Option<Seq<char>>,
    i: int,
)
    requires
        0 <= i < server_env(env, mmdc).len(),
    ensures
        allowed(server_env(env, mmdc)[i].0),
        env.contains(server_env(env, mmdc)[i]) || (mmdc is Some && server_env(env, mmdc)[i] == (
            MMDC_PATH@,
            mmdc->0,
        )),
{
    let keep = |v: (Seq<char>, Seq<char>)| allowed(v.0);
    let other = |v: (Seq<char>, Seq<char>)| v.0 != MMDC_PATH@;
    let kept = forwarded(env);
    let v = server_env(env, mmdc)[i];
    if mmdc is Some {
        let rest = without(kept, MMDC_PATH@);
        if i < rest.len() {
            assert(rest.contains(rest[i]));
            kept.lemma_filter_contains_rev(other, rest[i]);
        }
    } else {
        assert(kept.contains(kept[i]));
    }
    if kept.contains(v) {
        let k = choose|k: int| 0 <= k < kept.len() && kept[k] == v;
        env.lemma_filter_pred(keep, k);
        env.lemma_filter_contains_rev(keep, v);
    }
}

/// Every variable on the list reaches the server as the shell has it, but for `MMDC_PATH` where
/// the Mermaid CLI was found.
pub proof fn whatever_is_allowed_is_forwarded(
    env: Seq<(Seq<char>, Seq<char>)>,
    mmdc: Option<Seq<char>>,
    i: int,
)
    requires
        0 <= i < env.len(),
        allowed(env[i].0),
        mmdc is None || env[i].0 != MMDC_PATH@,
    ensures
        server_env(env, mmdc).contains(env[i]),
{
    let keep = |v: (Seq<char>, Seq<char>)| allowed(v.0);
    let other = |v: (Seq<char>, Seq<char>)| v.0 != MMDC_PATH@;
    let kept = forwarded(env);
    env.lemma_filter_contains(keep, i);
    if mmdc is Some {
        let k = choose|k: int| 0 <= k < kept.len() && kept[k] == env[i];
        kept.lemma_filter_contains(other, k);
        let rest = without(kept, MMDC_PATH@);
        let m = choose|m: int| 0 <= m < rest.len() && rest[m] == env[i];
        assert(server_env(env, mmdc)[m] == env[i]);
    }
}

/// Where the Mermaid CLI was found, the server is told so once, and told nothing else.
pub proof fn found_mmdc_is_the_only_one(env: Seq<(Seq<char>, Seq<char>)>, mmdc: Seq<char>, i: int)
    requires
        0 <= i < server_env(env, Some(mmdc)).len(),
    ensures
        server_env(env, Some(mmdc)).last() == (MMDC_PATH@, mmdc),
        server_env(env, Some(mmdc))[i].0 == MMDC_PATH@ <==> i == server_env(env, Some(mmdc)).len()
            - 1,
{
    let other = |v: (Seq<char>, Seq<char>)| v.0 != MMDC_PATH@;
    let kept = forwarded(env);
    if i < without(kept, MMDC_PATH@).len() {
        kept.lemma_filter_pred(other, i);
    }
}

/// Variables are taken as they are, each whole and in its place.
pub proof fn variables_are_taken_whole(env: Seq<(String, String)>, i: int, s: String)
    requires
        0 <= i < env.len(),
    ensures
        variables(env).len() == env.len(),
        variables(env)[i] == (env[i].0@, env[i].1@),
        optional(Some(s)) == Some(s@),
        optional(None) is None,
{
}

/// What reaches the server is what the shell has of the variables on this list, each with its value
/// and in its order, and, behind them, where the Mermaid CLI was found, if it was. What is found
/// takes the place of what the shell says of it. The result has the places of the variables that
/// are taken over.
pub proof fn server_sees_the_listed_variables_only(
    env: Seq<(Seq<char>, Seq<char>)>,
    mmdc: Option<Seq<char>>,
) -> (at: Seq<int>)
    ensures
        forall|k: int| 0 <= k < at.len() ==> 0 <= #[trigger] at[k] < env.len(),
        forall|k: int, m: int| 0 <= k < m < at.len() ==> #[trigger] at[k] < #[trigger] at[m],
        forall|i: int|
            0 <= i < env.len() ==> (#[trigger] at.contains(i) <==> {
                let key = env[i].0;
                ||| key == "PATH"@ || key == "HOME"@ || key == "DISPLAY"@ || key
                    == "WAYLAND_DISPLAY"@ || key == "XDG_RUNTIME_DIR"@ || key
                    == "DBUS_SESSION_BUS_ADDRESS"@ || key == "XDG_DATA_HOME"@ || key
                    == "XDG_CONFIG_HOME"@ || key == "LANG"@ || key == "LC_ALL"@ || key == "TERM"@
                ||| key == "MMDC_PATH"@ && mmdc is None
            }),
        mmdc is None ==> server_env(env, mmdc) == Seq::new(at.len(), |k: int| env[at[k]]),
        mmdc is Some ==> server_env(env, mmdc) == Seq::new(at.len(), |k: int| env[at[k]]).push(
            ("MMDC_PATH"@, mmdc->0),
        ),
{
    let keep = |v: (Seq<char>, Seq<char>)| allowed(v.0);
    let other = |v: (Seq<char>, Seq<char>)| v.0 != MMDC_PATH@;
    let kept = forwarded(env);
    let first = text::filter_picks(env, keep);
    lemma_mmdc_path_is_no_other();
    if mmdc is None {
        assert(kept =~= Seq::new(first.len(), |k: int| env[first[k]]));
        first
    } else {
        let second = text::filter_picks(kept, other);
        let at = Seq::new(second.len(), |k: int| first[second[k]]);
        assert forall|k: int| 0 <= k < at.len() implies 0 <= #[trigger] at[k] < env.len() by {
            assert(0 <= second[k] < first.len());
        }
        assert forall|i: int| 0 <= i < env.len() implies (#[trigger] at.contains(i) <==> allowed(
            env[i].0,
        ) && env[i].0 != MMDC_PATH@) by {
            if at.contains(i) {
                let k = choose|k: int| 0 <= k < at.len() && at[k] == i;
                assert(second.contains(second[k]));
                assert(kept[second[k]] == env[first[second[k]]]);
                assert(first.contains(i));
                assert(other(kept[second[k]]));
            }
            if allowed(env[i].0) && env[i].0 != MMDC_PATH@ {
                assert(keep(env[i]));
                assert(first.contains(i));
                let q = choose|q: int| 0 <= q < first.len() && first[q] == i;
                assert(kept[q] == env[first[q]]);
                assert(other(kept[q]));
                assert(second.contains(q));
                let k = choose|k: int| 0 <= k < second.len() && second[k] == q;
                assert(at[k] == i);
            }
        }
        assert(without(kept, MMDC_PATH@) =~= Seq::new(at.len(), |k: int| env[at[k]]));
        at
    }
}

proof fn lemma_mmdc_path_is_no_other()
    ensures
        MMDC_PATH@ != "PATH"@,
        MMDC_PATH@ != "HOME"@,
        MMDC_PATH@ != "DISPLAY"@,
        MMDC_PATH@ != "WAYLAND_DISPLAY"@,
        MMDC_PATH@ != "XDG_RUNTIME_DIR"@,
        MMDC_PATH@ != "DBUS_SESSION_BUS_ADDRESS"@,
        MMDC_PATH@ != "XDG_DATA_HOME"@,
        MMDC_PATH@ != "XDG_CONFIG_HOME"@,
        MMDC_PATH@ != "LANG"@,
        MMDC_PATH@ != "LC_ALL"@,
        MMDC_PATH@ != "TERM"@,
{
    reveal_strlit("MMDC_PATH");
    reveal_strlit("PATH");
    reveal_strlit("HOME");
    reveal_strlit("DISPLAY");
    reveal_strlit("WAYLAND_DISPLAY");
    reveal_strlit("XDG_RUNTIME_DIR");
    reveal_strlit("DBUS_SESSION_BUS_ADDRESS");
    reveal_strlit("XDG_DATA_HOME");
    reveal_strlit("XDG_CONFIG_HOME");
    reveal_strlit("LANG");
    reveal_strlit("LC_ALL");
    reveal_strlit("TERM");
    assert("MMDC_PATH"@.len() == 9);
    assert("PATH"@.len() == 4);
    assert("HOME"@.len() == 4);
    assert("DISPLAY"@.len() == 7);
    assert("WAYLAND_DISPLAY"@.len() == 15);
    assert("XDG_RUNTIME_DIR"@.len() == 15);
    assert("DBUS_SESSION_BUS_ADDRESS"@.len() == 24);
    assert("XDG_DATA_HOME"@.len() == 13);
    assert("XDG_CONFIG_HOME"@.len() == 15);
    assert("LANG"@.len() == 4);
    assert("LC_ALL"@.len() == 6);
    assert("TERM"@.len() == 4);
}

/// The server's binary is what the first variable that overrides it says, and else what was found.
pub proof fn first_override_names_the_binary(
    env: Seq<(Seq<char>, Seq<char>)>,
    found: Option<Seq<char>>,
    i: int,
)
    requires
        0 <= i <= env.len(),
        forall|k: int| 0 <= k < i ==> (#[trigger] env[k]).0 != "MERMAID_QUICKLOOK_LSP"@,
    ensures
        i < env.len() && env[i].0 == "MERMAID_QUICKLOOK_LSP"@ ==> server_binary(env, found) == Some(
            env[i].1,
        ),
        i == env.len() ==> server_binary(env, found) == found,
{
    lemma_lookup(env, LSP_PATH_OVERRIDE@, i);
}

} // verus!
