use vstd::prelude::*;

use crate::model::{
    activate_on, after, blocks_removal, create_on, follow, init_on, is_dir, is_file, link_target,
    perform, perform_all, read_file, remove_on, resolve, status_on, write_file, Node, Tree,
};
use crate::paths::{
    config_dir_name, config_root, dir_prefix, last_component, link_name, link_path, profile_file,
    profile_infix, profile_path,
};
use crate::store::{Failure, Step};

verus! {

proof fn lemma_perform_one(fs: Tree, s: Step)
    ensures
        perform_all(fs, seq![s]) == perform(fs, s),
{
    assert(seq![s].drop_first() =~= Seq::<Step>::empty());
    if let Some(next) = perform(fs, s) {
        assert(perform_all(next, Seq::<Step>::empty()) == Some(next));
    }
}

proof fn lemma_perform_two(fs: Tree, s: Step, t: Step)
    ensures
        perform_all(fs, seq![s, t]) == match perform(fs, s) {
            Some(next) => perform(next, t),
            None => None,
        },
{
    assert(seq![s, t].drop_first() =~= seq![t]);
    if let Some(next) = perform(fs, s) {
        lemma_perform_one(next, t);
    }
}

/// A path where no link stands leads to itself.
proof fn lemma_resolve_plain(fs: Tree, p: Seq<char>)
    requires
        !(fs.contains_key(p) && fs[p] is Link),
    ensures
        resolve(fs, p) == Some(p),
{
}

/// The text after the final separator of `x + y` is `y`, when `x` ends with a
/// separator and `y` holds none.
proof fn lemma_last_of_concat(x: Seq<char>, y: Seq<char>)
    requires
        x.len() > 0,
        x.last() == '/',
        !y.contains('/'),
    ensures
        last_component(x + y) == y,
    decreases y.len(),
{
    if y.len() == 0 {
        assert(x + y =~= x);
        assert(y =~= Seq::<char>::empty());
    } else {
        let z = y.drop_last();
        assert((x + y).drop_last() =~= x + z);
        assert((x + y).last() == y.last());
        assert(!z.contains('/')) by {
            assert forall|i: int| 0 <= i < z.len() implies z[i] != '/' by {
                assert(z[i] == y[i]);
            }
        }
        lemma_last_of_concat(x, z);
        assert(z.push(y.last()) =~= y);
    }
}

/// The shape of a profile's path under the default config root.
proof fn lemma_profile_path_shape(home_dir: Seq<char>, name: Seq<char>)
    ensures
        ({
            let c = config_root(home_dir);
            let p = profile_path(c, name);
            &&& dir_prefix(c) == c.push('/')
            &&& p == c.push('/') + profile_file(name)
            &&& p.len() > c.push('/').len()
            &&& p.subrange(0, c.len() + 1int) == c.push('/')
            &&& p.last() == profile_file(name).last()
        }),
{
    let c = config_root(home_dir);
    let f = profile_file(name);
    assert(c == dir_prefix(home_dir) + config_dir_name());
    assert(c.last() == 'c');
    assert(f[0] == '.');
    let p = profile_path(c, name);
    assert(p.subrange(0, c.len() + 1int) =~= c.push('/'));
}

/// The active link never stands where a profile's file does.
proof fn lemma_link_apart(home_dir: Seq<char>, name: Seq<char>)
    ensures
        link_path(home_dir) != profile_path(config_root(home_dir), name),
{
    let c = config_root(home_dir);
    lemma_profile_path_shape(home_dir, name);
    assert(c == dir_prefix(home_dir) + config_dir_name());
    assert(link_path(home_dir) == dir_prefix(home_dir) + link_name());
    assert(profile_path(c, name).len() > link_path(home_dir).len());
}

/// Making sure the config root exists succeeds when a directory, or nothing,
/// stands there, and is idempotent: once it has been done, doing it again
/// asks for nothing.
pub proof fn init_is_idempotent(fs: Tree, config_dir: Seq<char>)
    ensures
        (is_dir(fs, config_dir) || !fs.contains_key(config_dir)) ==> perform_all(
            fs,
            init_on(fs, config_dir),
        ) is Some,
        perform_all(fs, init_on(fs, config_dir)) matches Some(fs1) ==> init_on(fs1, config_dir)
            == Seq::<Step>::empty(),
{
    if !is_dir(fs, config_dir) {
        lemma_perform_one(fs, Step::CreateDirAll(config_dir));
        if !fs.contains_key(config_dir) {
            let fs1 = fs.insert(config_dir, Node::Dir);
            lemma_resolve_plain(fs1, config_dir);
        }
    } else {
        assert(init_on(fs, config_dir) =~= Seq::<Step>::empty());
        assert(perform_all(fs, Seq::<Step>::empty()) == Some(fs));
    }
}

/// Creating a profile that is absent leaves an empty file at its path;
/// creating it again is refused as already existing and changes nothing.
pub proof fn create_then_create_again(fs: Tree, config_dir: Seq<char>, name: Seq<char>)
    requires
        !fs.contains_key(profile_path(config_dir, name)),
    ensures
        ({
            let p = profile_path(config_dir, name);
            let fs1 = fs.insert(p, Node::File(Seq::empty()));
            let second = create_on(fs1, config_dir, name);
            &&& create_on(fs, config_dir, name) is Ok
            &&& after(fs, create_on(fs, config_dir, name)) == Some(fs1)
            &&& read_file(fs1, p) == Some(Seq::<u8>::empty())
            &&& second == Err::<Seq<Step>, Failure>(Failure::AlreadyExists(p))
            &&& after(fs1, second) == Some(fs1)
        }),
{
    let p = profile_path(config_dir, name);
    lemma_resolve_plain(fs, p);
    lemma_perform_one(fs, Step::CreateFile(p));
    let fs1 = fs.insert(p, Node::File(Seq::empty()));
    lemma_resolve_plain(fs1, p);
}

/// Removing a profile whose file exists deletes it; removing one whose file
/// is absent is refused as not found and changes nothing.
pub proof fn remove_existing_or_absent(fs: Tree, config_dir: Seq<char>, name: Seq<char>)
    ensures
        ({
            let p = profile_path(config_dir, name);
            let r = remove_on(fs, config_dir, name);
            &&& is_file(fs, p) ==> r is Ok && after(fs, r) == Some(fs.remove(p))
            &&& !is_file(fs, p) ==> r == Err::<Seq<Step>, Failure>(Failure::NotFound(p)) && after(
                fs,
                r,
            ) == Some(fs)
        }),
{
    let p = profile_path(config_dir, name);
    lemma_perform_one(fs, Step::RemoveEntry(p));
    if is_file(fs, p) {
        if !fs.contains_key(p) {
            lemma_resolve_plain(fs, p);
        }
        assert(fs.contains_key(p));
        if fs[p] is Dir {
            lemma_resolve_plain(fs, p);
        }
    }
}

/// Activating a profile whose file is absent is refused as not found, and the
/// filesystem, the active link included, stays as it was.
pub proof fn activate_absent_changes_nothing(
    fs: Tree,
    config_dir: Seq<char>,
    home_dir: Seq<char>,
    name: Seq<char>,
)
    requires
        !is_file(fs, profile_path(config_dir, name)),
    ensures
        activate_on(fs, config_dir, home_dir, name) == Err::<Seq<Step>, Failure>(
            Failure::NotFound(profile_path(config_dir, name)),
        ),
        after(fs, activate_on(fs, config_dir, home_dir, name)) == Some(fs),
{
}

proof fn lemma_activate_effect(fs: Tree, home_dir: Seq<char>, name: Seq<char>)
    requires
        is_file(fs, profile_path(config_root(home_dir), name)),
        !blocks_removal(fs, link_path(home_dir)),
    ensures
        activate_on(fs, config_root(home_dir), home_dir, name) is Ok,
        after(fs, activate_on(fs, config_root(home_dir), home_dir, name)) == Some(
            fs.remove(link_path(home_dir)).insert(
                link_path(home_dir),
                Node::Link(profile_path(config_root(home_dir), name)),
            ),
        ),
{
    let c = config_root(home_dir);
    let p = profile_path(c, name);
    let l = link_path(home_dir);
    if fs.contains_key(l) {
        lemma_perform_two(fs, Step::RemoveEntry(l), Step::Symlink { target: p, link: l });
    } else {
        lemma_perform_one(fs, Step::Symlink { target: p, link: l });
        assert(fs.remove(l) =~= fs);
    }
}

/// Activating `a` and then `b` leaves the active link pointing at `b`'s file,
/// as a link and not a copy: what is written into `b`'s file afterwards is
/// what reading through the link gives. `b`'s file is a regular file, as
/// creating a profile makes it, and nothing at the link path is a directory
/// with entries, which could not be removed.
pub proof fn activate_then_activate(fs: Tree, home_dir: Seq<char>, a: Seq<char>, b: Seq<char>)
    requires
        is_file(fs, profile_path(config_root(home_dir), a)),
        fs.contains_key(profile_path(config_root(home_dir), b)),
        fs[profile_path(config_root(home_dir), b)] is File,
        !blocks_removal(fs, link_path(home_dir)),
    ensures
        ({
            let c = config_root(home_dir);
            let l = link_path(home_dir);
            let pb = profile_path(c, b);
            let fs1 = fs.remove(l).insert(l, Node::Link(profile_path(c, a)));
            let fs2 = fs1.remove(l).insert(l, Node::Link(pb));
            &&& activate_on(fs, c, home_dir, a) is Ok
            &&& after(fs, activate_on(fs, c, home_dir, a)) == Some(fs1)
            &&& activate_on(fs1, c, home_dir, b) is Ok
            &&& after(fs1, activate_on(fs1, c, home_dir, b)) == Some(fs2)
            &&& link_target(fs2, l) == Some(pb)
            &&& forall|content: Seq<u8>|
                #[trigger] write_file(fs2, pb, content) matches Some(fs3) && read_file(fs3, l)
                    == Some(content)
        }),
{
    let c = config_root(home_dir);
    let l = link_path(home_dir);
    let pa = profile_path(c, a);
    let pb = profile_path(c, b);
    lemma_link_apart(home_dir, a);
    lemma_link_apart(home_dir, b);
    lemma_activate_effect(fs, home_dir, a);
    let fs1 = fs.remove(l).insert(l, Node::Link(pa));
    assert(fs1[pb] == fs[pb]);
    lemma_resolve_plain(fs1, pb);
    lemma_activate_effect(fs1, home_dir, b);
    let fs2 = fs1.remove(l).insert(l, Node::Link(pb));
    lemma_resolve_plain(fs2, pb);
    assert forall|content: Seq<u8>|
        #[trigger] write_file(fs2, pb, content) matches Some(fs3) && read_file(fs3, l) == Some(
            content,
        ) by {
        let fs3 = fs2.insert(pb, Node::File(content));
        assert(write_file(fs2, pb, content) == Some(fs3));
        assert(fs3[l] == Node::Link(pb));
        lemma_resolve_plain(fs3, pb);
        assert(follow(fs3, pb, 39) == Some(pb));
        assert(resolve(fs3, l) == Some(pb));
    }
}

/// With no active link there is no active profile; after activating `name`
/// the status names the last component of its file's path (its file name,
/// when `name` holds no separator); after removing that file, the link
/// dangles and there is again no active profile. A path that ends in a
/// separator names no file, so `name` does not end in one.
pub proof fn status_follows_the_link(fs: Tree, home_dir: Seq<char>, name: Seq<char>)
    requires
        !fs.contains_key(link_path(home_dir)),
        fs.contains_key(profile_path(config_root(home_dir), name)),
        fs[profile_path(config_root(home_dir), name)] is File,
        name.len() == 0 || name.last() != '/',
    ensures
        ({
            let c = config_root(home_dir);
            let l = link_path(home_dir);
            let p = profile_path(c, name);
            let fs1 = fs.insert(l, Node::Link(p));
            let fs2 = fs1.remove(p);
            &&& status_on(fs, c, home_dir) is None
            &&& after(fs, activate_on(fs, c, home_dir, name)) == Some(fs1)
            &&& status_on(fs1, c, home_dir) == Some(last_component(p))
            &&& !name.contains('/') ==> status_on(fs1, c, home_dir) == Some(profile_file(name))
            &&& after(fs1, remove_on(fs1, c, name)) == Some(fs2)
            &&& status_on(fs2, c, home_dir) is None
        }),
{
    let c = config_root(home_dir);
    let l = link_path(home_dir);
    let p = profile_path(c, name);
    let f = profile_file(name);
    lemma_link_apart(home_dir, name);
    lemma_profile_path_shape(home_dir, name);
    lemma_resolve_plain(fs, p);
    lemma_activate_effect(fs, home_dir, name);
    assert(fs.remove(l) =~= fs);
    let fs1 = fs.insert(l, Node::Link(p));
    lemma_resolve_plain(fs1, p);
    assert(is_file(fs1, p));
    if name.len() > 0 {
        assert(f.last() == name.last());
    } else {
        assert(f.last() == '.');
    }
    assert(last_component(p).len() > 0);
    if !name.contains('/') {
        assert(!f.contains('/')) by {
            assert forall|i: int| 0 <= i < f.len() implies f[i] != '/' by {
                if i >= profile_infix().len() {
                    assert(f[i] == name[i - profile_infix().len()]);
                }
            }
        }
        lemma_last_of_concat(c.push('/'), f);
    }
    lemma_perform_one(fs1, Step::RemoveEntry(p));
    let fs2 = fs1.remove(p);
    assert(link_target(fs2, l) == Some(p));
    lemma_resolve_plain(fs2, p);
}

} // verus!
