//! Which database connection plugins may use.

use vstd::prelude::*;

verus! {

/// What is looked at in the account of a connection.
#[derive(Clone, Copy, PartialEq, Eq, Structural, Debug)]
pub enum Privilege {
    /// Whether it is a privileged one, belongs to others or can create anything.
    Identity,
    /// Whether it can write or read what is not business data.
    Relations,
    /// Whether it can run a function that is not approved.
    Functions,
}

/// What follows from a look at an account.
#[derive(Clone, Copy, PartialEq, Eq, Structural, Debug)]
pub enum Verdict {
    /// The connection is refused, for what was looked at.
    Refuse { found: Privilege },
    /// Something else is looked at.
    Look { at: Privilege },
    /// The connection may be used.
    Accept,
}

/// What follows from a look at an account: it is refused for anything unsafe, and accepted
/// once everything was looked at.
pub open spec fn verdict(looked_at: Privilege, unsafe_found: bool) -> Verdict {
    if unsafe_found {
        Verdict::Refuse { found: looked_at }
    } else {
        match looked_at {
            Privilege::Identity => Verdict::Look { at: Privilege::Relations },
            Privilege::Relations => Verdict::Look { at: Privilege::Functions },
            Privilege::Functions => Verdict::Accept,
        }
    }
}

/// What follows from a look at an account.
pub fn judge(looked_at: Privilege, unsafe_found: bool) -> (r: Verdict)
    ensures
        r == verdict(looked_at, unsafe_found),
{
    if unsafe_found {
        return Verdict::Refuse { found: looked_at };
    }
    match looked_at {
        Privilege::Identity => Verdict::Look { at: Privilege::Relations },
        Privilege::Relations => Verdict::Look { at: Privilege::Functions },
        Privilege::Functions => Verdict::Accept,
    }
}

/// Why a connection is refused.
pub fn refusal(found: Privilege) -> (message: &'static str)
    ensures
        message@ == (match found {
            Privilege::Identity => "plugin database role must be an unprivileged login without role memberships or ownership"@,
            Privilege::Relations => "plugin database role has write privileges or can read non-business data"@,
            Privilege::Functions => "plugin database role can execute an unapproved database function"@,
        }),
{
    match found {
        Privilege::Identity => "plugin database role must be an unprivileged login without role memberships or ownership",
        Privilege::Relations => "plugin database role has write privileges or can read non-business data",
        Privilege::Functions => "plugin database role can execute an unapproved database function",
    }
}

/// Looking at one thing after another, from the first: what the last verdict is, given what
/// each look finds.
pub open spec fn outcome(identity: bool, relations: bool, functions: bool) -> Verdict {
    match verdict(Privilege::Identity, identity) {
        Verdict::Look { at: second } => match verdict(second, relations) {
            Verdict::Look { at: third } => verdict(third, functions),
            other => other,
        },
        other => other,
    }
}

/// A connection is accepted only where nothing unsafe was found in any look.
pub proof fn only_safe_connections_are_accepted(identity: bool, relations: bool, functions: bool)
    ensures
        outcome(identity, relations, functions) == Verdict::Accept <==> !identity && !relations
            && !functions,
{
}

} // verus!
