//! Paths of archive entries, as sequences of path components.
//!
//! On creation each file is recorded under its path relative to the home
//! directory, so entries begin with the configuration directory's own name
//! (`.emacs.d/init.el`). On restore that leading component is dropped and
//! the rest is placed under the configuration directory.

use vstd::prelude::*;

verus! {

/// The views of the strings of `s`.
pub open spec fn comps(s: Seq<String>) -> Seq<Seq<char>> {
    s.map_values(|t: String| t@)
}

/// The name of the configuration directory.
pub open spec fn config_dir_name() -> Seq<char> {
    ".emacs.d"@
}

/// Whether `base` is a leading part of `path`, component by component.
pub open spec fn is_prefix(base: Seq<Seq<char>>, path: Seq<Seq<char>>) -> bool {
    base.len() <= path.len() && path.take(base.len() as int) == base
}

/// Components joined with `/`.
pub open spec fn joined(c: Seq<Seq<char>>) -> Seq<char>
    decreases c.len(),
{
    if c.len() == 0 {
        Seq::empty()
    } else if c.len() == 1 {
        c[0]
    } else {
        joined(c.drop_last()) + seq!['/'] + c.last()
    }
}

/// An entry's components with a leading configuration directory name
/// removed.
pub open spec fn within_config(entry: Seq<Seq<char>>) -> Seq<Seq<char>> {
    if entry.len() > 0 && entry[0] == config_dir_name() {
        entry.drop_first()
    } else {
        entry
    }
}

/// The name under which the file at `path` is archived: its path relative
/// to `base`, components joined with `/`; `None` where `path` does not lie
/// under `base`.
pub fn entry_name(base: &Vec<String>, path: &Vec<String>) -> (r: Option<String>)
    ensures
        r matches Some(n) ==> is_prefix(comps(base@), comps(path@)) && n@ == joined(
            comps(path@).skip(base@.len() as int),
        ),
        r is None ==> !is_prefix(comps(base@), comps(path@)),
{
    if base.len() > path.len() {
        return None;
    }
    let mut i: usize = 0;
    while i < base.len()
        invariant
            i <= base.len() <= path.len(),
            forall|k: int| 0 <= k < i ==> base@[k]@ == #[trigger] path@[k]@,
        decreases base.len() - i,
    {
        if !(base[i] == path[i]) {
            assert(comps(path@).take(base@.len() as int)[i as int] != comps(base@)[i as int]);
            return None;
        }
        i += 1;
    }
    assert(comps(path@).take(base@.len() as int) =~= comps(base@));
    let ghost rest = comps(path@).skip(base@.len() as int);
    let mut name = String::new();
    let mut j: usize = base.len();
    while j < path.len()
        invariant
            base@.len() <= j <= path@.len(),
            rest == comps(path@).skip(base@.len() as int),
            name@ == joined(rest.take(j - base@.len())),
        decreases path.len() - j,
    {
        proof {
            let t = rest.take(j + 1 - base@.len());
            assert(t.drop_last() =~= rest.take(j - base@.len()));
        }
        if j > base.len() {
            name.append("/");
            proof {
                reveal_strlit("/");
            }
        }
        name.append(path[j].as_str());
        j += 1;
    }
    assert(rest.take(path@.len() - base@.len()) =~= rest);
    Some(name)
}

/// Where an entry is restored: its components, without a leading
/// configuration directory name, under `config_dir`.
pub fn restore_target(config_dir: &Vec<String>, entry: &Vec<String>) -> (r: Vec<String>)
    ensures
        comps(r@) == comps(config_dir@) + within_config(comps(entry@)),
{
    let mut r: Vec<String> = Vec::new();
    let mut i: usize = 0;
    while i < config_dir.len()
        invariant
            i <= config_dir.len(),
            comps(r@) == comps(config_dir@).take(i as int),
        decreases config_dir.len() - i,
    {
        let ghost prev = r@;
        let c = config_dir[i].clone();
        assert(c == config_dir@[i as int]);
        r.push(c);
        assert(r@ == prev.push(config_dir@[i as int]));
        assert(comps(r@) =~= comps(prev).push(c@));
        assert(comps(r@) =~= comps(config_dir@).take(i + 1));
        i += 1;
    }
    let start: usize = if entry.len() > 0 && entry[0] == String::from_str(".emacs.d") {
        1
    } else {
        0
    };
    let ghost head = comps(r@);
    let ghost tail = within_config(comps(entry@));
    assert(tail =~= comps(entry@).skip(start as int));
    let mut j: usize = start;
    while j < entry.len()
        invariant
            start <= j <= entry.len(),
            head == comps(config_dir@),
            tail == comps(entry@).skip(start as int),
            comps(r@) == head + tail.take(j - start),
        decreases entry.len() - j,
    {
        let ghost prev = r@;
        let c = entry[j].clone();
        r.push(c);
        assert(r@ == prev.push(entry@[j as int]));
        assert(comps(r@) =~= comps(prev).push(c@));
        assert(tail.take(j + 1 - start) =~= tail.take(j - start).push(c@));
        assert(comps(r@) =~= head + tail.take(j + 1 - start));
        j += 1;
    }
    assert(tail.take(entry@.len() - start) =~= tail);
    r
}

/// A file archived from under the configuration directory, with `home` as
/// the base, is restored to the very path it was archived from: the
/// configuration directory under `home`, followed by what the entry holds
/// past its leading component.
pub proof fn lemma_restore_returns_to_origin(home: Seq<Seq<char>>, path: Seq<Seq<char>>)
    requires
        is_prefix(home, path),
        path.len() > home.len(),
        path[home.len() as int] == config_dir_name(),
    ensures
        home.push(config_dir_name()) + within_config(path.skip(home.len() as int)) == path,
{
    let rel = path.skip(home.len() as int);
    assert(rel[0] == config_dir_name());
    assert(path.take(home.len() as int) == home);
    assert(home.push(config_dir_name()) + rel.drop_first() =~= path);
}

} // verus!
