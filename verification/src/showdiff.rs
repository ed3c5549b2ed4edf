//! The diff presenter: the unified diff of the local flattened source
//! against the remote canonical source, rendered plain or with terminal
//! color. The diff itself is delegated to an outside library whose result is
//! a deterministic function of the two texts, which is what makes the
//! rendering stable.

use vstd::prelude::*;

verus! {

/// The unified-diff text of two sources. The diff algorithm is
/// deterministic, so this is a function of the two texts alone.
pub uninterp spec fn patch_text(local: Seq<char>, remote: Seq<char>) -> Seq<char>;

/// The unified-diff text of two sources with terminal color codes wrapped
/// around additions and removals; a function of the two texts alone, like
/// the plain form.
pub uninterp spec fn patch_text_colored(local: Seq<char>, remote: Seq<char>) -> Seq<char>;

/// Relies on `diffy::create_patch` and `Patch`'s `Display` impl: the unified
/// diff of the two texts, computed by a deterministic
/// longest-common-subsequence family algorithm with no randomness, so the
/// result depends on the two texts alone.
#[verifier::external_body]
fn diff_patch_plain(local: &str, remote: &str) -> (r: String)
    ensures
        r@ == patch_text(local@, remote@),
{
    let patch = diffy::create_patch(local, remote);
    format!("{}", patch)
}

/// Relies on `diffy::create_patch` and `diffy::PatchFormatter::with_color`:
/// the same deterministic unified diff, with fixed terminal color codes
/// around the marked lines, so the result again depends on the two texts
/// alone.
#[verifier::external_body]
fn diff_patch_colored(local: &str, remote: &str) -> (r: String)
    ensures
        r@ == patch_text_colored(local@, remote@),
{
    let patch = diffy::create_patch(local, remote);
    let formatter = diffy::PatchFormatter::new().with_color();
    format!("{}", formatter.fmt_patch(&patch))
}

/// Renders the diff of the local source against the remote canonical
/// source: the unified-diff text, with color codes exactly when color output
/// is asked for.
pub fn render_diff(local: &str, remote: &str, color_output: bool) -> (r: String)
    ensures
        color_output ==> r@ == patch_text_colored(local@, remote@),
        !color_output ==> r@ == patch_text(local@, remote@),
{
    if color_output {
        diff_patch_colored(local, remote)
    } else {
        diff_patch_plain(local, remote)
    }
}

/// Diffing the same pair of sources twice yields byte-identical output: the
/// rendered diff is a function of the two texts and the color flag alone.
pub proof fn lemma_diff_deterministic(
    local: Seq<char>,
    remote: Seq<char>,
    first: Seq<char>,
    second: Seq<char>,
)
    requires
        first == patch_text(local, remote),
        second == patch_text(local, remote),
    ensures
        first == second,
{
}

} // verus!
