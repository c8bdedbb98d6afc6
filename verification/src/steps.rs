//! Procedures that run commands on a server one after the other.
//!
//! A procedure is a value that, told what came of its last command, says
//! what to do next: run another command, stop with an error, or finish.
//! Whoever holds a connection runs the commands and feeds the results back.

use vstd::prelude::*;

use crate::error::{error_detail, error_prefix, AppError};
use crate::text::{owned, push_str};

verus! {

/// Where a command runs.
#[derive(Debug, Clone, Copy, PartialEq, Eq)]
pub enum Target {
    /// On the host itself.
    Host,
    /// Inside the Xray container.
    Container,
}

/// What a procedure asks for next.
#[derive(Debug)]
pub enum Next {
    /// Run this command and report what came of it.
    Run(Target, String),
    /// Stop: the procedure failed with this error.
    Fail(AppError),
    /// Stop: the procedure is done; its result can be read from it.
    Finish,
}

/// What a step is meant to ask for.
pub enum Want {
    /// Run a command.
    Run(Target, Seq<char>),
    /// Fail with this very error (the one the last command came back with).
    Pass(AppError),
    /// Fail with an Xray error of this text.
    Xray(Seq<char>),
    /// Fail with a configuration error of this text.
    Config(Seq<char>),
    /// Fail with an Xray error made of this text and the message of an error.
    XrayAbout(Seq<char>, AppError),
    /// Finish.
    Finish,
}

/// Whether a step asked for what it was meant to.
pub open spec fn next_is(n: Next, w: Want) -> bool {
    match w {
        Want::Run(t, c) => n matches Next::Run(t2, c2) && t2 == t && c2@ == c,
        Want::Pass(e) => n == Next::Fail(e),
        Want::Xray(m) => n matches Next::Fail(AppError::Xray(m2)) && m2@ == m,
        Want::Config(m) => n matches Next::Fail(AppError::Config(m2)) && m2@ == m,
        Want::XrayAbout(lead, e) => n matches Next::Fail(AppError::Xray(m2)) && about(m2@, lead, e),
        Want::Finish => n is Finish,
    }
}

/// Whether `m` is `lead` followed by the message of `e`: its prefix naming
/// the kind of error, then its detail where the library knows it.
pub open spec fn about(m: Seq<char>, lead: Seq<char>, e: AppError) -> bool {
    &&& m.len() >= lead.len() + error_prefix(e).len()
    &&& m.subrange(0, (lead.len() + error_prefix(e).len()) as int) == lead + error_prefix(e)
    &&& (error_detail(e) matches Some(d) ==> m == lead + error_prefix(e) + d)
}

/// An Xray error whose text is `lead` followed by the message of `e`.
pub fn xray_about(lead: &str, e: &AppError) -> (r: AppError)
    ensures
        r matches AppError::Xray(m) && about(m@, lead@, *e),
{
    let mut m = owned(lead);
    let text = e.message();
    push_str(&mut m, text.as_str());
    let ghost p = error_prefix(*e);
    assert(m@ == lead@ + text@);
    assert(m@.subrange(0, (lead@.len() + p.len()) as int) =~= lead@ + text@.subrange(0, p.len() as int));
    proof {
        if let Some(d) = error_detail(*e) {
            assert(lead@ + (p + d) =~= lead@ + p + d);
        }
    }
    AppError::Xray(m)
}

} // verus!
