//! Two questions about a running process: where is it, and what is it.
//!
//! The answers feed the derived pane title. Failure is `None`, never an error: a
//! process exits between one call and the next all the time. And an answer is
//! cleaned before it is handed on, since anyone can make a directory.
use vstd::prelude::*;
use vstd::string::*;
use crate::pane_title::{sanitize, sanitized};
use crate::text::{text_view, trim, trimmed};
use std::borrow::Cow;

verus! {

/// Whether `pid` can name a process: a positive `pid_t`.
pub open spec fn is_pid(pid: u32) -> bool {
    0 < pid <= i32::MAX
}

/// Whether `pid` can name a process. Other values have special meanings to the
/// kernel's queries and must not reach them.
pub fn pid_in_range(pid: u32) -> (r: bool)
    ensures
        r == is_pid(pid),
{
    pid != 0 && pid <= 0x7fff_ffff
}

/// A cleaned text, where anything of it is left.
pub open spec fn unless_empty(s: Seq<char>) -> Option<Seq<char>> {
    if s.len() == 0 {
        None
    } else {
        Some(s)
    }
}

/// The directory that a raw answer of the platform names.
pub open spec fn directory_answer(raw: Option<String>) -> Option<Seq<char>> {
    match raw {
        Some(s) => unless_empty(sanitized(s@)),
        None => None,
    }
}

/// The program that a raw answer of the platform names: the kernel's field ends in a
/// newline, which is no part of it.
pub open spec fn program_answer(raw: Option<String>) -> Option<Seq<char>> {
    match raw {
        Some(s) => unless_empty(sanitized(trimmed(s@))),
        None => None,
    }
}

fn cleaned(s: &str) -> (r: Option<String>)
    ensures
        text_view(r) == unless_empty(sanitized(s@)),
{
    let owned: String = match sanitize(s) {
        Cow::Borrowed(b) => b.to_string(),
        Cow::Owned(o) => o,
    };
    if owned.as_str().is_empty() {
        None
    } else {
        Some(owned)
    }
}

/// The absolute working directory of `pid`, or `None` if it has gone or `platform`
/// will not say. `platform` is asked only about what can be a process.
pub fn cwd_of<Q: FnOnce(u32) -> Option<String>>(pid: u32, platform: Q) -> (r: Option<String>)
    requires
        is_pid(pid) ==> call_requires(platform, (pid,)),
    ensures
        !is_pid(pid) ==> r is None,
        is_pid(pid) ==> exists|raw: Option<String>| #[trigger]
            call_ensures(platform, (pid,), raw) && text_view(r) == directory_answer(raw),
{
    if !pid_in_range(pid) {
        return None;
    }
    let raw: Option<String> = platform(pid);
    match &raw {
        Some(s) => cleaned(s.as_str()),
        None => None,
    }
}

/// The program name of `pid`, or `None` as for [`cwd_of`].
pub fn name_of<Q: FnOnce(u32) -> Option<String>>(pid: u32, platform: Q) -> (r: Option<String>)
    requires
        is_pid(pid) ==> call_requires(platform, (pid,)),
    ensures
        !is_pid(pid) ==> r is None,
        is_pid(pid) ==> exists|raw: Option<String>| #[trigger]
            call_ensures(platform, (pid,), raw) && text_view(r) == program_answer(raw),
{
    if !pid_in_range(pid) {
        return None;
    }
    let raw: Option<String> = platform(pid);
    match &raw {
        Some(s) => {
            let t: String = trim(s.as_str());
            cleaned(t.as_str())
        },
        None => None,
    }
}

} // verus!
