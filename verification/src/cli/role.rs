//! The decisions of the `swarm role` commands: where roles are read from,
//! and whether a validation run passes.

use vstd::prelude::*;
use crate::config::model::SwarmConfig;
use crate::text::{decimal_spec, decimal_text, owned};

verus! {

/// The roles directory: the one given on the command line, else the
/// configured one, else `roles`.
pub fn resolve_roles_dir(config: &SwarmConfig, dir: Option<String>) -> (r: String)
    ensures
        dir is Some ==> r@ == dir->Some_0@,
        dir is None && config.roles.roles_dir is Some ==> r@ == config.roles.roles_dir->Some_0@,
        dir is None && config.roles.roles_dir is None ==> r@ == "roles"@,
{
    match dir {
        Some(d) => d,
        None => match &config.roles.roles_dir {
            Some(d) => d.clone(),
            None => {
                proof {
                    reveal_strlit("roles");
                }
                owned("roles")
            },
        },
    }
}

/// The text of a boolean as Rust displays it.
pub open spec fn bool_text(b: bool) -> Seq<char> {
    if b {
        "true"@
    } else {
        "false"@
    }
}

/// Whether a role validation run passes: it fails on any error (counted,
/// or reported as an issue of error severity), and on warnings when strict.
pub fn role_validation_verdict(strict: bool, warnings: u64, errors: u64, has_error_issue: bool) -> (r: Result<(), String>)
    ensures
        r is Err <==> (errors > 0 || has_error_issue || (strict && warnings > 0)),
        r matches Err(e) ==> e@ == "role validation failed (strict="@ + bool_text(strict) + ", warnings="@
            + decimal_spec(warnings as nat) + ", errors="@ + decimal_spec(errors as nat) + ")"@,
{
    let has_errors = errors > 0 || has_error_issue;
    if has_errors || (strict && warnings > 0) {
        proof {
            reveal_strlit("role validation failed (strict=");
            reveal_strlit("true");
            reveal_strlit("false");
            reveal_strlit(", warnings=");
            reveal_strlit(", errors=");
            reveal_strlit(")");
        }
        let mut e = owned("role validation failed (strict=");
        if strict {
            e.append("true");
        } else {
            e.append("false");
        }
        e.append(", warnings=");
        let w = decimal_text(warnings);
        e.append(w.as_str());
        e.append(", errors=");
        let x = decimal_text(errors);
        e.append(x.as_str());
        e.append(")");
        return Err(e);
    }
    Ok(())
}

} // verus!
