//! The `hooks` subcommands: which step each one takes, the scaffold a new hook starts
//! from, and the table that lists the installed hooks.
use vstd::prelude::*;
use crate::hooks::manifest::{event_name, HookEvent};
use crate::text::{is_alnum, push_char, push_signed_decimal, push_str, signed_decimal};

verus! {

/// The `hooks` subcommands.
pub enum HooksCommands {
    List,
    Reload,
    Create { name: String },
    Audit { path: String },
}

/// What a subcommand does next.
pub enum HooksCliPlan {
    /// Print the builtin and dynamic hooks.
    List,
    /// Write the reload stamp.
    Reload,
    /// Create the directory `name` in the hooks directory, holding `manifest` as `HOOK.toml`.
    Create { name: String, manifest: String },
    /// Audit the hook directory at `path`.
    Audit { path: String },
    /// The command is refused with this message.
    Refused(String),
}

/// Whether a scaffold name is acceptable: non-empty, ASCII letters, digits and hyphens.
pub open spec fn scaffold_name_ok(name: Seq<char>) -> bool {
    name.len() > 0 && forall|k: int| 0 <= k < name.len() ==> is_alnum(#[trigger] name[k])
        || name[k] == '-'
}

/// The `HOOK.toml` a new hook starts from.
pub open spec fn scaffold_manifest(name: Seq<char>) -> Seq<char> {
    "[hook]\nname = \""@ + name
        + "\"\ndescription = \"TODO: describe what this hook does\"\nevent = \"on_session_start\"\npriority = 0\nenabled = true\n\n[hook.action.shell]\ncommand = \"echo hook "@
        + name + " fired\"\n"@
}

/// Chooses the step of a `hooks` subcommand; `create` checks the name and writes the
/// scaffold.
pub fn handle_hooks_command(command: HooksCommands) -> (r: HooksCliPlan)
    ensures
        match command {
            HooksCommands::List => r is List,
            HooksCommands::Reload => r is Reload,
            HooksCommands::Create { name } => if scaffold_name_ok(name@) {
                r matches HooksCliPlan::Create { name: n, manifest } && n@ == name@ && manifest@
                    == scaffold_manifest(name@)
            } else {
                r matches HooksCliPlan::Refused(m) && m@ == "Invalid hook name '"@ + name@
                    + "': use alphanumeric characters and hyphens only."@
            },
            HooksCommands::Audit { path } => r matches HooksCliPlan::Audit { path: p } && p@
                == path@,
        },
{
    match command {
        HooksCommands::List => HooksCliPlan::List,
        HooksCommands::Reload => HooksCliPlan::Reload,
        HooksCommands::Audit { path } => HooksCliPlan::Audit { path },
        HooksCommands::Create { name } => {
            let v = crate::text::chars_of(name.as_str());
            let mut ok = v.len() > 0;
            let mut i: usize = 0;
            while i < v.len()
                invariant
                    i <= v.len(),
                    ok == (v@.len() > 0 && forall|k: int|
                        0 <= k < i ==> is_alnum(#[trigger] v@[k]) || v@[k] == '-'),
                decreases v.len() - i,
            {
                let c = v[i];
                if !(('0' <= c && c <= '9') || ('a' <= c && c <= 'z') || ('A' <= c && c <= 'Z')
                    || c == '-') {
                    ok = false;
                }
                i = i + 1;
            }
            if !ok {
                let mut m = String::new();
                push_str(&mut m, "Invalid hook name '");
                push_str(&mut m, name.as_str());
                push_str(&mut m, "': use alphanumeric characters and hyphens only.");
                return HooksCliPlan::Refused(m);
            }
            let mut t = String::new();
            push_str(&mut t, "[hook]\nname = \"");
            push_str(&mut t, name.as_str());
            push_str(
                &mut t,
                "\"\ndescription = \"TODO: describe what this hook does\"\nevent = \"on_session_start\"\npriority = 0\nenabled = true\n\n[hook.action.shell]\ncommand = \"echo hook ",
            );
            push_str(&mut t, name.as_str());
            push_str(&mut t, " fired\"\n");
            HooksCliPlan::Create { name, manifest: t }
        },
    }
}

/// `s` padded with spaces on the right to at least `width` characters (as `{:<width}`).
pub open spec fn pad_right(s: Seq<char>, width: nat) -> Seq<char> {
    if s.len() >= width {
        s
    } else {
        s + Seq::new((width - s.len()) as nat, |k: int| ' ')
    }
}

/// Appends `s` padded to `width` characters.
fn push_padded(out: &mut String, s: &str, width: usize)
    ensures
        final(out)@ == old(out)@ + pad_right(s@, width as nat),
{
    let v = crate::text::chars_of(s);
    push_str(out, s);
    let mut n = v.len();
    let ghost mid = out@;
    while n < width
        invariant
            v@.len() <= n <= width || (n == v@.len() && n >= width),
            mid == old(out)@ + s@,
            out@ == mid + Seq::new((n - v@.len()) as nat, |k: int| ' '),
        decreases width - n,
    {
        push_char(out, ' ');
        assert(out@ =~= mid + Seq::new((n + 1 - v@.len()) as nat, |k: int| ' '));
        n = n + 1;
    }
    proof {
        if v@.len() >= width {
            assert(out@ =~= mid);
        }
    }
}

/// One row of the dynamic hook table.
pub open spec fn hook_row(name: Seq<char>, event: HookEvent, priority: i32, enabled: bool) -> Seq<
    char,
> {
    "  "@ + pad_right(name, 20) + " "@ + pad_right(event_name(event), 25) + " "@ + pad_right(
        signed_decimal(priority as int),
        10,
    ) + " "@ + pad_right(
        if enabled {
            "yes"@
        } else {
            "no"@
        },
        8,
    )
}

/// The row of the dynamic hook table that lists one hook.
pub fn hook_table_row(name: &str, event: HookEvent, priority: i32, enabled: bool) -> (r: String)
    ensures
        r@ == hook_row(name@, event, priority, enabled),
{
    let mut out = String::new();
    push_str(&mut out, "  ");
    push_padded(&mut out, name, 20);
    push_str(&mut out, " ");
    push_padded(&mut out, event.as_str(), 25);
    push_str(&mut out, " ");
    let mut p = String::new();
    push_signed_decimal(&mut p, priority as i64);
    push_padded(&mut out, p.as_str(), 10);
    push_str(&mut out, " ");
    push_padded(
        &mut out,
        if enabled {
            "yes"
        } else {
            "no"
        },
        8,
    );
    out
}

/// The line that reports the builtin command logger.
pub open spec fn builtin_row(command_logger: bool) -> Seq<char> {
    "  "@ + pad_right("command-logger"@, 20) + " "@ + pad_right(
        if command_logger {
            "enabled"@
        } else {
            "disabled"@
        },
        10,
    )
}

/// The line that reports the builtin command logger.
pub fn builtin_hook_row(command_logger: bool) -> (r: String)
    ensures
        r@ == builtin_row(command_logger),
{
    let mut out = String::new();
    push_str(&mut out, "  ");
    push_padded(&mut out, "command-logger", 20);
    push_str(&mut out, " ");
    push_padded(
        &mut out,
        if command_logger {
            "enabled"
        } else {
            "disabled"
        },
        10,
    );
    out
}

} // verus!
