//! Paths of the host's file system as text.
use vstd::prelude::*;
use vstd::string::*;
use crate::text::{cat2, cat3, chars_of};

verus! {

/// The path of `name` in the directory `dir`. An absolute name stands for
/// itself.
pub open spec fn joined_path(dir: Seq<char>, name: Seq<char>) -> Seq<char> {
    if name.len() > 0 && name[0] == '/' {
        name
    } else if dir.len() == 0 || dir.last() == '/' {
        dir + name
    } else {
        dir + "/"@ + name
    }
}

/// The path of `name` in the directory `dir`.
pub fn join_path(dir: &str, name: &str) -> (r: String)
    ensures
        r@ == joined_path(dir@, name@),
{
    let d = chars_of(dir);
    let n = chars_of(name);
    if n.len() > 0 && n[0] == '/' {
        name.to_owned()
    } else if d.len() == 0 || d[d.len() - 1] == '/' {
        cat2(dir, name)
    } else {
        cat3(dir, "/", name)
    }
}

/// The path of an instance's file in a directory: the instance's id and a
/// suffix.
pub open spec fn instance_file(dir: Seq<char>, id: Seq<char>, suffix: Seq<char>) -> Seq<char> {
    joined_path(dir, id + suffix)
}

/// The path of an instance's file in a directory.
pub fn instance_path(dir: &str, id: &str, suffix: &str) -> (r: String)
    ensures
        r@ == instance_file(dir@, id@, suffix@),
{
    let name = cat2(id, suffix);
    join_path(dir, name.as_str())
}

/// Files of different instances with the same suffix lie at different paths.
pub proof fn law_instance_files_differ(
    dir: Seq<char>,
    a: Seq<char>,
    b: Seq<char>,
    suffix: Seq<char>,
)
    requires
        a != b,
        a.len() > 0 && a[0] != '/',
        b.len() > 0 && b[0] != '/',
    ensures
        instance_file(dir, a, suffix) != instance_file(dir, b, suffix),
{
    reveal_strlit("/");
    let pa = instance_file(dir, a, suffix);
    let pb = instance_file(dir, b, suffix);
    let k: int = if dir.len() == 0 || dir.last() == '/' {
        dir.len() as int
    } else {
        dir.len() as int + 1
    };
    if pa == pb {
        assert(pa.skip(k) =~= a + suffix);
        assert(pb.skip(k) =~= b + suffix);
        assert((a + suffix).len() == (b + suffix).len());
        assert((a + suffix).take(a.len() as int) =~= a);
        assert((b + suffix).take(b.len() as int) =~= b);
    }
}

/// An absolute name is its own path. Any other one is below the directory: the path
/// begins with the directory and ends with the name, with one slash between them
/// where the directory does not end with one.
pub proof fn law_name_is_joined_to_its_directory(dir: &str, name: &str, r: String)
    requires
        call_ensures(join_path, (dir, name), r),
    ensures
        name@.len() > 0 && name@[0] == '/' ==> r@ == name@,
        !(name@.len() > 0 && name@[0] == '/') ==> {
            &&& dir@.is_prefix_of(r@)
            &&& name@.is_suffix_of(r@)
            &&& dir@.len() > 0 && dir@.last() != '/' ==> r@.len() == dir@.len() + 1 + name@.len()
                && r@[dir@.len() as int] == '/'
            &&& dir@.len() == 0 || dir@.last() == '/' ==> r@.len() == dir@.len() + name@.len()
        },
{
    reveal_strlit("/");
    if !(name@.len() > 0 && name@[0] == '/') {
        assert(r@.subrange(0, dir@.len() as int) =~= dir@);
        assert(r@.subrange(r@.len() - name@.len(), r@.len() as int) =~= name@);
    }
}

/// An instance's file is the one that the directory and the instance's id with the
/// suffix behind it name.
pub proof fn law_instance_file_is_named_after_it(
    dir: &str,
    id: &str,
    suffix: &str,
    name: &str,
    joined: String,
    r: String,
)
    requires
        name@ == id@ + suffix@,
        call_ensures(join_path, (dir, name), joined),
        call_ensures(instance_path, (dir, id, suffix), r),
    ensures
        r@ == joined@,
        suffix@.is_suffix_of(r@),
{
    reveal_strlit("/");
    assert(r@.subrange(r@.len() - suffix@.len(), r@.len() as int) =~= suffix@);
}

} // verus!
