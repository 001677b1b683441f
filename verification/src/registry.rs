//! The naming rules of the agent registry: identifiers `agent-<n>` and
//! default display names, and its lookup error.

use vstd::prelude::*;
use crate::strutil::push_str;
use crate::numfmt::{decimal_rep, format_u64};

verus! {

/// The identifier allocated for the `n`-th agent.
pub open spec fn agent_label(n: nat) -> Seq<char> {
    "agent-"@ + decimal_rep(n)
}

/// The display name an agent gets when none is supplied.
pub open spec fn default_agent_name(n: nat) -> Seq<char> {
    "Agent "@ + decimal_rep(n)
}

/// Allocates the `n`-th agent's identifier and display name: `agent-<n>`,
/// and the supplied name or the default `Agent <n>`.
pub fn allocate_agent_labels(n: u64, name: Option<String>) -> (r: (String, String))
    ensures
        r.0@ == agent_label(n as nat),
        match name {
            Some(given) => r.1 == given,
            None => r.1@ == default_agent_name(n as nat),
        },
{
    let digits = format_u64(n);
    let mut id: String = "agent-".to_owned();
    push_str(&mut id, digits.as_str());
    let display = match name {
        Some(given) => given,
        None => {
            let mut d: String = "Agent ".to_owned();
            push_str(&mut d, digits.as_str());
            d
        },
    };
    (id, display)
}

/// The error text for a lookup of an unknown agent.
pub open spec fn unknown_agent_text(id: Seq<char>) -> Seq<char> {
    "unknown agent: "@ + id
}

/// Builds the error text for a lookup of an unknown agent.
pub fn unknown_agent_message(id: &str) -> (r: String)
    ensures
        r@ == unknown_agent_text(id@),
{
    let mut m: String = "unknown agent: ".to_owned();
    push_str(&mut m, id);
    m
}

} // verus!
