//! The long version text of the program.
use vstd::prelude::*;
use crate::text::{chars_of, string_of};

verus! {

/// The version text: the package version, then one indented line for each build fact.
pub open spec fn version_text(
    version: Seq<char>,
    branch: Seq<char>,
    describe: Seq<char>,
    target: Seq<char>,
    features: Seq<char>,
    build: Seq<char>,
    rustc: Seq<char>,
) -> Seq<char> {
    version + "\n        Git: "@ + branch + " + "@ + describe + "\n        Target: "@ + target
        + "\n        Features: "@ + features + "\n        Build: "@ + build
        + "\n        Rustc: "@ + rustc
}

fn push_str(out: &mut Vec<char>, s: &str)
    ensures
        final(out)@ == old(out)@ + s@,
{
    let mut cs = chars_of(s);
    out.append(&mut cs);
}

pub fn default(
    version: &str,
    branch: &str,
    describe: &str,
    target: &str,
    features: &str,
    build: &str,
    rustc: &str,
) -> (r: String)
    ensures
        r@ == version_text(version@, branch@, describe@, target@, features@, build@, rustc@),
{
    let mut out: Vec<char> = Vec::new();
    push_str(&mut out, version);
    push_str(&mut out, "\n        Git: ");
    push_str(&mut out, branch);
    push_str(&mut out, " + ");
    push_str(&mut out, describe);
    push_str(&mut out, "\n        Target: ");
    push_str(&mut out, target);
    push_str(&mut out, "\n        Features: ");
    push_str(&mut out, features);
    push_str(&mut out, "\n        Build: ");
    push_str(&mut out, build);
    push_str(&mut out, "\n        Rustc: ");
    push_str(&mut out, rustc);
    assert(out@ =~= version_text(version@, branch@, describe@, target@, features@, build@, rustc@));
    string_of(&out)
}

} // verus!
