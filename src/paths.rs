use vstd::prelude::*;
use vstd::std_specs::iter::IteratorSpec;

verus! {

/// `dir` ready to have a relative name appended: a separator is added unless
/// `dir` is empty or already ends with one.
pub open spec fn dir_prefix(dir: Seq<char>) -> Seq<char> {
    if dir.len() == 0 || dir.last() == '/' {
        dir
    } else {
        dir.push('/')
    }
}

/// The path of `name` inside `dir`. An absolute `name` replaces `dir`, as
/// pushing onto a path does.
pub open spec fn join(dir: Seq<char>, name: Seq<char>) -> Seq<char> {
    if name.len() > 0 && name[0] == '/' {
        name
    } else {
        dir_prefix(dir) + name
    }
}

/// The infix that marks a profile file: `.npmrc.`
pub open spec fn profile_infix() -> Seq<char> {
    seq!['.', 'n', 'p', 'm', 'r', 'c', '.']
}

/// The name of the active link in the home directory: `.npmrc`
pub open spec fn link_name() -> Seq<char> {
    seq!['.', 'n', 'p', 'm', 'r', 'c']
}

/// The name of the directory that holds the profiles: `.rnpmrc`
pub open spec fn config_dir_name() -> Seq<char> {
    seq!['.', 'r', 'n', 'p', 'm', 'r', 'c']
}

/// The file name that backs the profile `name`.
pub open spec fn profile_file(name: Seq<char>) -> Seq<char> {
    profile_infix() + name
}

/// The config root that belongs to `home_dir`.
pub open spec fn config_root(home_dir: Seq<char>) -> Seq<char> {
    join(home_dir, config_dir_name())
}

/// Where the profile `name` lives under `config_dir`.
pub open spec fn profile_path(config_dir: Seq<char>, name: Seq<char>) -> Seq<char> {
    join(config_dir, profile_file(name))
}

/// Where the active link lives under `home_dir`.
pub open spec fn link_path(home_dir: Seq<char>) -> Seq<char> {
    join(home_dir, link_name())
}

/// `pat` occurs in `s` at position `i`.
pub open spec fn occurs_at(s: Seq<char>, pat: Seq<char>, i: int) -> bool {
    0 <= i && i + pat.len() <= s.len() && s.subrange(i, i + pat.len()) == pat
}

/// `pat` occurs somewhere in `s`.
pub open spec fn contains_text(s: Seq<char>, pat: Seq<char>) -> bool {
    exists|i: int| occurs_at(s, pat, i)
}

/// A file name follows the profile naming convention.
pub open spec fn is_profile_name(name: Seq<char>) -> bool {
    contains_text(name, profile_infix())
}

/// The last component of `path`: the text after its final separator.
pub open spec fn last_component(path: Seq<char>) -> Seq<char>
    decreases path.len(),
{
    if path.len() == 0 {
        path
    } else if path.last() == '/' {
        Seq::empty()
    } else {
        last_component(path.drop_last()).push(path.last())
    }
}

/// The file name of `path` when it lies under `dir`, at any depth: `path`
/// begins with `dir` and a separator, goes on past them, and its last
/// component is not empty.
pub open spec fn file_under_dir(dir: Seq<char>, path: Seq<char>) -> Option<Seq<char>> {
    let pre = dir_prefix(dir);
    if pre.len() < path.len() && path.subrange(0, pre.len() as int) == pre && last_component(
        path,
    ).len() > 0 {
        Some(last_component(path))
    } else {
        None
    }
}

/// The characters of `s`, in order.
pub fn chars_of(s: &str) -> (r: Vec<char>)
    ensures
        r@ == s@,
{
    let mut out: Vec<char> = Vec::new();
    for c in it: s.chars()
        invariant
            out@ == it.history(),
    {
        out.push(c);
    }
    proof {
        vstd::string::axiom_spec_iter(s);
    }
    out
}

/// Relies on `String::push`: appends one character.
#[verifier::external_body]
fn push_char(s: &mut String, c: char)
    ensures
        final(s)@ == old(s)@.push(c),
{
    s.push(c)
}

/// A string holding the characters of `cs`, in order.
pub fn string_of(cs: &Vec<char>) -> (r: String)
    ensures
        r@ == cs@,
{
    let mut out = String::new();
    let mut i: usize = 0;
    while i < cs.len()
        invariant
            i <= cs@.len(),
            out@ == cs@.subrange(0, i as int),
        decreases cs@.len() - i,
    {
        push_char(&mut out, cs[i]);
        i = i + 1;
        assert(out@ =~= cs@.subrange(0, i as int));
    }
    out
}

/// Two texts hold the same characters.
pub fn same_text(a: &str, b: &str) -> (r: bool)
    ensures
        r == (a@ == b@),
{
    let x = chars_of(a);
    let y = chars_of(b);
    if x.len() != y.len() {
        assert(a@.len() != b@.len());
        return false;
    }
    let mut i: usize = 0;
    while i < x.len()
        invariant
            x@ == a@,
            y@ == b@,
            x@.len() == y@.len(),
            i <= x@.len(),
            x@.subrange(0, i as int) == y@.subrange(0, i as int),
        decreases x@.len() - i,
    {
        if x[i] != y[i] {
            assert(a@[i as int] != b@[i as int]);
            return false;
        }
        assert(x@.subrange(0, i + 1) =~= x@.subrange(0, i as int).push(x@[i as int]));
        assert(y@.subrange(0, i + 1) =~= y@.subrange(0, i as int).push(y@[i as int]));
        i = i + 1;
    }
    assert(x@ =~= x@.subrange(0, i as int));
    assert(y@ =~= y@.subrange(0, i as int));
    true
}

/// Builds the full path of `file_name` inside `dir_path`.
pub fn build_file_path(dir_path: &str, file_name: &str) -> (r: String)
    ensures
        r@ == join(dir_path@, file_name@),
{
    let dir = chars_of(dir_path);
    let mut name = chars_of(file_name);
    if name.len() > 0 && name[0] == '/' {
        return string_of(&name);
    }
    let mut out = dir.clone();
    if dir.len() > 0 && dir[dir.len() - 1] != '/' {
        out.push('/');
    }
    assert(out@ == dir_prefix(dir@));
    out.append(&mut name);
    string_of(&out)
}

/// The file name that backs the profile `profile`.
pub fn profile_file_name(profile: &str) -> (r: String)
    ensures
        r@ == profile_file(profile@),
{
    let mut out = chars_of(".npmrc.");
    proof {
        reveal_strlit(".npmrc.");
    }
    let mut rest = chars_of(profile);
    out.append(&mut rest);
    string_of(&out)
}

/// The path of the file that backs the profile `profile` under `config_dir`.
pub fn profile_file_path(config_dir: &str, profile: &str) -> (r: String)
    ensures
        r@ == profile_path(config_dir@, profile@),
{
    let name = profile_file_name(profile);
    build_file_path(config_dir, name.as_str())
}

/// The path of the active link under `home_dir`.
pub fn active_link_path(home_dir: &str) -> (r: String)
    ensures
        r@ == link_path(home_dir@),
{
    proof {
        reveal_strlit(".npmrc");
    }
    build_file_path(home_dir, ".npmrc")
}

/// Whether the file name `name` follows the profile naming convention.
pub fn is_profile_file_name(name: &str) -> (r: bool)
    ensures
        r == is_profile_name(name@),
{
    let s = chars_of(name);
    let pat = chars_of(".npmrc.");
    proof {
        reveal_strlit(".npmrc.");
    }
    if s.len() < pat.len() {
        proof {
            assert forall|i: int| !occurs_at(s@, pat@, i) by {}
        }
        return false;
    }
    let last = s.len() - pat.len();
    let mut i: usize = 0;
    while i <= last
        invariant
            s@ == name@,
            last == s@.len() - pat@.len(),
            s@.len() <= usize::MAX,
            pat@ == profile_infix(),
            i <= last + 1,
            forall|k: int| 0 <= k < i ==> !occurs_at(s@, pat@, k),
        decreases last + 1 - i,
    {
        let mut j: usize = 0;
        let mut same = true;
        assert(s@.subrange(i as int, i as int) =~= pat@.subrange(0, 0));
        while j < pat.len()
            invariant
                i <= last,
                s@.len() <= usize::MAX,
                last == s@.len() - pat@.len(),
                j <= pat@.len(),
                same == (s@.subrange(i as int, i + j) == pat@.subrange(0, j as int)),
            decreases pat@.len() - j,
        {
            if s[i + j] != pat[j] {
                same = false;
            }
            proof {
                assert(s@.subrange(i as int, i + j + 1) =~= s@.subrange(i as int, i + j).push(
                    s@[i + j],
                ));
                assert(pat@.subrange(0, j + 1) =~= pat@.subrange(0, j as int).push(pat@[j as int]));
                if s@.subrange(i as int, i + j + 1) == pat@.subrange(0, j + 1) {
                    assert(s@.subrange(i as int, i + j + 1)[j as int] == pat@.subrange(
                        0,
                        j + 1,
                    )[j as int]);
                    assert(s@.subrange(i as int, i + j) =~= s@.subrange(i as int, i + j + 1).drop_last());
                    assert(pat@.subrange(0, j as int) =~= pat@.subrange(0, j + 1).drop_last());
                }
            }
            j = j + 1;
        }
        assert(pat@.subrange(0, pat@.len() as int) =~= pat@);
        if same {
            assert(occurs_at(s@, pat@, i as int));
            return true;
        }
        i = i + 1;
    }
    proof {
        assert forall|k: int| !occurs_at(s@, pat@, k) by {
            if 0 <= k && k < i {
            }
        }
    }
    false
}

/// The last component of `path`: the text after its final separator.
pub fn last_path_component(path: &str) -> (r: String)
    ensures
        r@ == last_component(path@),
{
    let p = chars_of(path);
    let mut last: Vec<char> = Vec::new();
    let mut k: usize = 0;
    while k < p.len()
        invariant
            k <= p@.len(),
            last@ == last_component(p@.subrange(0, k as int)),
        decreases p@.len() - k,
    {
        assert(p@.subrange(0, k + 1).drop_last() =~= p@.subrange(0, k as int));
        if p[k] == '/' {
            last = Vec::new();
        } else {
            last.push(p[k]);
        }
        k = k + 1;
    }
    assert(p@.subrange(0, k as int) =~= p@);
    string_of(&last)
}

/// The file name of `path` when it lies under `dir`, at any depth.
pub fn file_name_under(dir: &str, path: &str) -> (r: Option<String>)
    ensures
        opt_text(r) == file_under_dir(dir@, path@),
{
    let d = chars_of(dir);
    let p = chars_of(path);
    let mut pre = d.clone();
    if d.len() > 0 && d[d.len() - 1] != '/' {
        pre.push('/');
    }
    assert(pre@ == dir_prefix(dir@));
    if pre.len() >= p.len() {
        return None;
    }
    let mut i: usize = 0;
    while i < pre.len()
        invariant
            pre@ == dir_prefix(dir@),
            p@ == path@,
            pre@.len() < p@.len(),
            i <= pre@.len(),
            p@.subrange(0, i as int) == pre@.subrange(0, i as int),
        decreases pre@.len() - i,
    {
        if p[i] != pre[i] {
            assert(p@.subrange(0, pre@.len() as int)[i as int] == p@[i as int]);
            return None;
        }
        assert(p@.subrange(0, i + 1) =~= p@.subrange(0, i as int).push(p@[i as int]));
        assert(pre@.subrange(0, i + 1) =~= pre@.subrange(0, i as int).push(pre@[i as int]));
        i = i + 1;
    }
    assert(pre@ =~= pre@.subrange(0, i as int));
    let last = last_path_component(path);
    if last.as_str().is_empty() {
        return None;
    }
    Some(last)
}

/// A text as a character sequence, if there is one.
pub open spec fn opt_text(o: Option<String>) -> Option<Seq<char>> {
    match o {
        Some(s) => Some(s@),
        None => None,
    }
}

} // verus!
