use vstd::prelude::*;
use crate::text::{chars_of, replace_all, replace_chars, str_eq, string_of, views};

verus! {

/// The private-key names that are looked for first, in this order.
pub open spec fn preferred_key_names() -> Seq<Seq<char>> {
    seq!["id_ed25519"@, "id_ecdsa"@, "id_rsa"@, "id_dsa"@]
}

/// A file name that starts with `id_` and does not end with `.pub`.
pub open spec fn is_key_file_name(n: Seq<char>) -> bool {
    &&& n.len() >= 3 && n[0] == 'i' && n[1] == 'd' && n[2] == '_'
    &&& !(n.len() >= 4 && n[n.len() - 4] == '.' && n[n.len() - 3] == 'p' && n[n.len() - 2] == 'u'
        && n[n.len() - 1] == 'b')
}

/// The first of `prefs` that is among `files`.
pub open spec fn first_present(prefs: Seq<Seq<char>>, files: Seq<Seq<char>>) -> Option<Seq<char>>
    decreases prefs.len(),
{
    if prefs.len() == 0 {
        None
    } else if files.contains(prefs[0]) {
        Some(prefs[0])
    } else {
        first_present(prefs.drop_first(), files)
    }
}

/// The first of `files` whose name a private key may have.
pub open spec fn first_key_file(files: Seq<Seq<char>>) -> Option<Seq<char>>
    decreases files.len(),
{
    if files.len() == 0 {
        None
    } else if is_key_file_name(files[0]) {
        Some(files[0])
    } else {
        first_key_file(files.drop_first())
    }
}

/// The key that ssh is pointed at, among the names of the files in the
/// `.ssh` directory (in the order the directory lists them): the first
/// preferred name present, else the first `id_*` file that is not a public
/// key, else none.
pub open spec fn chosen_key(files: Seq<Seq<char>>) -> Option<Seq<char>> {
    match first_present(preferred_key_names(), files) {
        Some(p) => Some(p),
        None => first_key_file(files),
    }
}

/// The `GIT_SSH_COMMAND` that makes git's ssh use the key at `path`, with
/// backslashes in the path turned into slashes.
pub open spec fn ssh_command_text(path: Seq<char>) -> Seq<char> {
    "ssh -i \""@ + replace_all(path, seq!['\\'], seq!['/'])
        + "\" -o IdentitiesOnly=yes -o StrictHostKeyChecking=accept-new"@
}

fn is_key_file_name_exec(name: &String) -> (r: bool)
    ensures
        r == is_key_file_name(name@),
{
    let v = chars_of(name.as_str());
    let n = v.len();
    let starts = n >= 3 && v[0] == 'i' && v[1] == 'd' && v[2] == '_';
    let ends = n >= 4 && v[n - 4] == '.' && v[n - 3] == 'p' && v[n - 2] == 'u' && v[n - 1] == 'b';
    starts && !ends
}

fn has_name(files: &Vec<String>, name: &str) -> (r: bool)
    ensures
        r == views(files@).contains(name@),
{
    let mut j: usize = 0;
    while j < files.len()
        invariant
            j <= files@.len(),
            forall|k: int| 0 <= k < j ==> views(files@)[k] != name@,
        decreases files@.len() - j,
    {
        if str_eq(files[j].as_str(), name) {
            assert(views(files@)[j as int] == name@);
            return true;
        }
        j += 1;
    }
    false
}

/// The name of the key to use among the names of the files in the `.ssh`
/// directory, listed in the order the directory gives them.
pub fn choose_ssh_key(files: &Vec<String>) -> (r: Option<String>)
    ensures
        match chosen_key(views(files@)) {
            Some(n) => r matches Some(x) && x@ == n,
            None => r is None,
        },
{
    let prefs: [&str; 4] = ["id_ed25519", "id_ecdsa", "id_rsa", "id_dsa"];
    proof {
        reveal_strlit("id_ed25519");
        reveal_strlit("id_ecdsa");
        reveal_strlit("id_rsa");
        reveal_strlit("id_dsa");
    }
    let ghost ps = preferred_key_names();
    let ghost fs = views(files@);
    assert(ps.skip(0) =~= ps);
    let mut i: usize = 0;
    while i < 4
        invariant
            i <= 4,
            ps == preferred_key_names(),
            fs == views(files@),
            forall|k: int| 0 <= k < 4 ==> (#[trigger] prefs@[k])@ == ps[k],
            first_present(ps, fs) == first_present(ps.skip(i as int), fs),
        decreases 4 - i,
    {
        let p = prefs[i];
        assert(ps.skip(i as int)[0] == ps[i as int]);
        assert(ps.skip(i as int).drop_first() =~= ps.skip(i + 1));
        if has_name(files, p) {
            return Some(String::from_str(p));
        }
        i += 1;
    }
    assert(ps.skip(4) =~= Seq::<Seq<char>>::empty());
    assert(fs.skip(0) =~= fs);
    let mut j: usize = 0;
    while j < files.len()
        invariant
            j <= files@.len(),
            fs == views(files@),
            ps == preferred_key_names(),
            first_present(ps, fs) is None,
            first_key_file(fs) == first_key_file(fs.skip(j as int)),
        decreases files@.len() - j,
    {
        assert(fs.skip(j as int)[0] == fs[j as int]);
        assert(fs.skip(j as int).drop_first() =~= fs.skip(j + 1));
        if is_key_file_name_exec(&files[j]) {
            assert(first_key_file(fs.skip(j as int)) == Some(fs[j as int]));
            let found = files[j].clone();
            return Some(found);
        }
        j += 1;
    }
    assert(fs.skip(j as int) =~= Seq::<Seq<char>>::empty());
    None
}

/// The `GIT_SSH_COMMAND` for the key at `path`.
pub fn ssh_command(path: &str) -> (r: String)
    ensures
        r@ == ssh_command_text(path@),
{
    let v = chars_of(path);
    let pat: Vec<char> = vec!['\\'];
    let rep: Vec<char> = vec!['/'];
    assert(pat@ =~= seq!['\\']);
    assert(rep@ =~= seq!['/']);
    let replaced = replace_chars(&v, &pat, &rep);
    let mut r = String::from_str("ssh -i \"");
    let middle = string_of(replaced.as_slice());
    r.append(middle.as_str());
    r.append("\" -o IdentitiesOnly=yes -o StrictHostKeyChecking=accept-new");
    r
}

} // verus!
