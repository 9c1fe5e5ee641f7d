//! Links to forum posts.

use vstd::prelude::*;

verus! {

/// The path that finds the post with id `pid`.
pub open spec fn find_post_link(pid: Seq<char>) -> Seq<char> {
    "forum.php?mod=redirect&goto=findpost&pid="@ + pid
}

/// Generates the link that finds the post with id `pid`.
pub fn generate_find_post_link(pid: &str) -> (r: String)
    ensures
        r@ == find_post_link(pid@),
{
    let mut r = String::from_str("forum.php?mod=redirect&goto=findpost&pid=");
    r.append(pid);
    r
}

} // verus!
