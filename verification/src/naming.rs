//! How a file's new name is made of its creation time and its old name.

use crate::timestamp::Timestamp;
use vstd::prelude::*;

verus! {

/// A stamp, one space, and the name that it is put in front of.
pub open spec fn prefixed_text(stamp: Seq<char>, name: Seq<char>) -> Seq<char> {
    stamp + seq![' '] + name
}

/// The new name of a file created at `created` and called `name` so far.
pub open spec fn new_name_text(created: Timestamp, name: Seq<char>) -> Seq<char> {
    prefixed_text(created.stamp_text(), name)
}

/// Puts `stamp` and one space in front of `name`.
pub fn prefixed(stamp: &str, name: &str) -> (r: String)
    ensures
        r@ == prefixed_text(stamp@, name@),
{
    proof {
        reveal_strlit(" ");
    }
    let mut text = String::from_str(stamp);
    text.append(" ");
    text.append(name);
    assert(" "@ =~= seq![' ']);
    text
}

/// The new name of a file created at `created` and called `name` so far:
/// the stamp of the instant, one space, the old name.
pub fn new_name(created: &Timestamp, name: &str) -> (r: String)
    ensures
        r@ == new_name_text(*created, name@),
{
    let stamp = created.stamp();
    prefixed(stamp.as_str(), name)
}

/// A new name is never empty, whatever the old one was.
pub proof fn lemma_new_name_nonempty(created: Timestamp, name: Seq<char>)
    ensures
        new_name_text(created, name).len() > 0,
{
}

/// Files created at the same instant get the same new name only if they
/// had the same name before.
pub proof fn lemma_new_names_differ(created: Timestamp, a: Seq<char>, b: Seq<char>)
    requires
        a != b,
    ensures
        new_name_text(created, a) != new_name_text(created, b),
{
    let head = created.stamp_text() + seq![' '];
    let x = new_name_text(created, a);
    let y = new_name_text(created, b);
    if x == y {
        assert(x.subrange(head.len() as int, x.len() as int) =~= a);
        assert(y.subrange(head.len() as int, y.len() as int) =~= b);
    }
}

} // verus!
