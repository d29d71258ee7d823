//! The file watcher's decision: which changed paths require rebundling and
//! a route-table swap.

use vstd::prelude::*;

use crate::text::{ends_with, spec_ends_with, to_chars};

verus! {

/// The path's last component carries this extension suffix: the path ends
/// with it and what precedes it is a non-empty file-name stem.
pub open spec fn spec_has_ext(p: Seq<char>, suffix: Seq<char>) -> bool {
    &&& spec_ends_with(p, suffix)
    &&& p.len() > suffix.len()
    &&& p[p.len() - suffix.len() - 1] != '/'
}

/// A change to this path triggers a swap: any `.ts` or `.js` source file,
/// or the project manifest `config.yml` (as a path's last component).
pub open spec fn spec_triggers_swap(p: Seq<char>) -> bool {
    ||| spec_has_ext(p, ".ts"@)
    ||| spec_has_ext(p, ".js"@)
    ||| spec_ends_with(p, "/config.yml"@)
    ||| p == "config.yml"@
}

fn has_ext(chars: &Vec<char>, suffix: &Vec<char>) -> (r: bool)
    ensures
        r == spec_has_ext(chars@, suffix@),
{
    if !ends_with(chars, suffix) {
        return false;
    }
    if chars.len() <= suffix.len() {
        return false;
    }
    chars[chars.len() - suffix.len() - 1] != '/'
}

fn triggers_swap(p: &String) -> (r: bool)
    ensures
        r == spec_triggers_swap(p@),
{
    let chars = to_chars(p.as_str());
    if has_ext(&chars, &to_chars(".ts")) {
        return true;
    }
    if has_ext(&chars, &to_chars(".js")) {
        return true;
    }
    if ends_with(&chars, &to_chars("/config.yml")) {
        return true;
    }
    crate::text::chars_eq(&chars, &to_chars("config.yml"))
}

/// Does this batch of changed paths require rebundling and a swap?
pub fn needs_swap(paths: &Vec<String>) -> (r: bool)
    ensures
        r == exists|i: int| 0 <= i < paths@.len() && spec_triggers_swap((#[trigger] paths@[i])@),
{
    let mut i: usize = 0;
    while i < paths.len()
        invariant
            i <= paths.len(),
            forall|k: int| 0 <= k < i ==> !spec_triggers_swap((#[trigger] paths@[k])@),
        decreases paths.len() - i,
    {
        if triggers_swap(&paths[i]) {
            return true;
        }
        i += 1;
    }
    false
}

} // verus!
