//! What holds of paths and their parts.
use vstd::prelude::*;

#[allow(unused_imports)]
use crate::image::seed_path;
#[allow(unused_imports)]
use crate::path::{
    before_last_dot, extension, file_name, file_stem, joined, last_part, parent, stem, tail_len,
    trimmed, with_extension, with_file_name,
};

verus! {

/// A name that can stand in a path as it is.
spec fn ordinary(name: Seq<char>) -> bool {
    &&& name.len() > 0
    &&& !name.contains('/')
    &&& name != seq!['.']
    &&& name != seq!['.', '.']
}

proof fn lemma_tail(head: Seq<char>, file: Seq<char>)
    requires
        head.len() == 0 || head.last() == '/',
        !file.contains('/'),
    ensures
        tail_len(head + file) == file.len(),
    decreases file.len(),
{
    if file.len() == 0 {
        assert(head + file =~= head);
    } else {
        assert((head + file).drop_last() =~= head + file.drop_last());
        assert((head + file).last() == file[file.len() - 1]);
        assert(file.contains(file[file.len() - 1]));
        assert(!file.drop_last().contains('/')) by {
            if file.drop_last().contains('/') {
                let i = choose|i: int| 0 <= i < file.len() - 1 && file.drop_last()[i] == '/';
                assert(file[i] == '/');
            }
        }
        lemma_tail(head, file.drop_last());
    }
}

proof fn lemma_dot(a: Seq<char>, b: Seq<char>)
    requires
        !b.contains('.'),
    ensures
        before_last_dot(a + seq!['.'] + b) == a.len(),
    decreases b.len(),
{
    let whole = a + seq!['.'] + b;
    if b.len() == 0 {
        assert(whole.last() == '.');
    } else {
        assert(whole.drop_last() =~= a + seq!['.'] + b.drop_last());
        assert(whole.last() == b[b.len() - 1]);
        assert(b.contains(b[b.len() - 1]));
        assert(!b.drop_last().contains('.')) by {
            if b.drop_last().contains('.') {
                let i = choose|i: int| 0 <= i < b.len() - 1 && b.drop_last()[i] == '.';
                assert(b[i] == '.');
            }
        }
        lemma_dot(a, b.drop_last());
    }
}

proof fn lemma_no_dot(a: Seq<char>)
    requires
        !a.contains('.'),
    ensures
        before_last_dot(a) == 0,
    decreases a.len(),
{
    if a.len() > 0 {
        assert(a.contains(a[a.len() - 1]));
        assert(!a.drop_last().contains('.')) by {
            if a.drop_last().contains('.') {
                let i = choose|i: int| 0 <= i < a.len() - 1 && a.drop_last()[i] == '.';
                assert(a[i] == '.');
            }
        }
        lemma_no_dot(a.drop_last());
    }
}

/// A name in a directory stands behind the directory and one slash, and is its last component. A
/// name without a slash is its own last component.
pub proof fn the_last_component_follows_the_last_slash(dir: Seq<char>, name: Seq<char>)
    requires
        name.len() > 0,
        !name.contains('/'),
        name != seq!['.'],
        name != seq!['.', '.'],
    ensures
        file_name(dir + seq!['/'] + name) == Some(name),
        file_name(name) == Some(name),
        last_part(dir + seq!['/'] + name) == name,
        dir.len() == 0 ==> joined(dir, name) == name,
        dir.len() > 0 && dir.last() == '/' ==> joined(dir, name) == dir + name,
        dir.len() > 0 && dir.last() != '/' ==> joined(dir, name) == dir + seq!['/'] + name,
        file_name(joined(dir, name)) == Some(name),
{
    lemma_file_name(dir + seq!['/'], name);
    lemma_file_name(Seq::empty(), name);
    assert(Seq::<char>::empty() + name =~= name);
    if dir.len() > 0 && dir.last() == '/' {
        lemma_file_name(dir, name);
    }
    if dir.len() == 0 {
        assert(dir + name =~= name);
    }
}

proof fn lemma_file_name(head: Seq<char>, name: Seq<char>)
    requires
        ordinary(name),
        head.len() == 0 || head.last() == '/',
    ensures
        trimmed(head + name) == head + name,
        file_name(head + name) == Some(name),
        last_part(head + name) == name,
{
    let p = head + name;
    lemma_tail(head, name);
    assert(p.last() == name[name.len() - 1]);
    assert(name.contains(name[name.len() - 1]));
    if p.len() > 1 && p.last() == '.' && p[p.len() - 2] == '/' {
        if name.len() > 1 {
            assert(p[p.len() - 2] == name[name.len() - 2]);
            assert(name.contains(name[name.len() - 2]));
        } else {
            assert(name =~= seq!['.']);
        }
    }
    assert(trimmed(p) == p);
    assert(last_part(p) =~= name);
}

/// Slashes at the end, and a component that is a dot, change nothing.
pub proof fn slashes_at_the_end_do_not_count(path: Seq<char>)
    ensures
        file_name(path + seq!['/']) == file_name(path),
        file_name(path + seq!['/', '.']) == file_name(path),
        file_stem(path + seq!['/']) == file_stem(path),
        extension(path + seq!['/']) == extension(path),
{
    let a = path + seq!['/'];
    let b = path + seq!['/', '.'];
    assert(a.drop_last() =~= path);
    assert(b.drop_last() =~= a);
    assert(trimmed(a) == trimmed(path));
    assert(trimmed(b) == trimmed(a));
}

/// The extension of a name is what follows its last dot, and its stem what comes before that, unless
/// the dot comes first.
pub proof fn a_name_is_split_at_its_last_dot(dir: Seq<char>, name: Seq<char>, ext: Seq<char>)
    requires
        name.len() > 0,
        !name.contains('/'),
        !ext.contains('/'),
        !ext.contains('.'),
        name + seq!['.'] + ext != seq!['.', '.'],
    ensures
        file_stem(dir + seq!['/'] + (name + seq!['.'] + ext)) == Some(name),
        extension(dir + seq!['/'] + (name + seq!['.'] + ext)) == Some(ext),
        extension(name + seq!['.'] + ext) == Some(ext),
        stem(name + seq!['.'] + ext) == name,
        !name.contains('.') ==> extension(dir + seq!['/'] + name) is None && file_stem(
            dir + seq!['/'] + name,
        ) == Some(name),
        ext.len() > 0 ==> extension(dir + seq!['/'] + (seq!['.'] + ext)) is None && file_stem(
            dir + seq!['/'] + (seq!['.'] + ext),
        ) == Some(seq!['.'] + ext),
        with_extension(dir + seq!['/'] + (name + seq!['.'] + ext), "raw"@) == dir + seq!['/'] + name
            + seq!['.'] + "raw"@,
{
    let full = name + seq!['.'] + ext;
    lemma_dot(name, ext);
    assert(!full.contains('/')) by {
        if full.contains('/') {
            let i = choose|i: int| 0 <= i < full.len() && full[i] == '/';
            if i < name.len() {
                assert(name[i] == '/');
            } else if i > name.len() {
                assert(ext[i - name.len() - 1] == '/');
            }
        }
    }
    assert(full.len() >= 2);
    assert(full != seq!['.']) by {
        if full == seq!['.'] {
            assert(full.len() == 1);
        }
    }
    lemma_file_name(dir + seq!['/'], full);
    lemma_file_name(Seq::empty(), full);
    assert(Seq::<char>::empty() + full =~= full);
    assert(full.take(name.len() as int) =~= name);
    assert(full.skip(name.len() + 1int) =~= ext);
    if !name.contains('.') {
        assert(name != seq!['.']) by {
            if name == seq!['.'] {
                assert(name[0] == '.');
                assert(name.contains('.'));
            }
        }
        assert(name != seq!['.', '.']) by {
            if name == seq!['.', '.'] {
                assert(name[0] == '.');
                assert(name.contains('.'));
            }
        }
        lemma_file_name(dir + seq!['/'], name);
        lemma_no_dot(name);
    }
    if ext.len() > 0 {
        let hidden = seq!['.'] + ext;
        assert(Seq::<char>::empty() + seq!['.'] + ext =~= hidden);
        lemma_dot(Seq::empty(), ext);
        assert(!hidden.contains('/')) by {
            if hidden.contains('/') {
                let i = choose|i: int| 0 <= i < hidden.len() && hidden[i] == '/';
                if i > 0 {
                    assert(ext[i - 1] == '/');
                }
            }
        }
        assert(hidden.len() >= 2);
        assert(hidden != seq!['.', '.']) by {
            if hidden == seq!['.', '.'] {
                assert(hidden[1] == '.');
                assert(ext[0] == '.');
                assert(ext.contains('.'));
            }
        }
        assert(hidden != seq!['.']) by {
            if hidden == seq!['.'] {
                assert(hidden.len() == 1);
            }
        }
        lemma_file_name(dir + seq!['/'], hidden);
    }
    let path = dir + seq!['/'] + full;
    assert(path.take(path.len() - full.len() + name.len()) =~= dir + seq!['/'] + name);
    assert(with_extension(path, "raw"@) =~= dir + seq!['/'] + name + seq!['.'] + "raw"@);
}

/// A name in a directory is replaced by another in the same directory, and the seed of a disk is
/// named after it and stands beside it.
pub proof fn a_seed_stands_beside_its_disk(dir: Seq<char>, name: Seq<char>, ext: Seq<char>)
    requires
        dir.len() > 0,
        dir.last() != '/',
        !(dir.len() > 1 && dir.last() == '.' && dir[dir.len() - 2] == '/'),
        name.len() > 0,
        !name.contains('/'),
        !ext.contains('/'),
        !ext.contains('.'),
        name + seq!['.'] + ext != seq!['.', '.'],
    ensures
        parent(dir + seq!['/'] + (name + seq!['.'] + ext)) == dir,
        with_file_name(dir + seq!['/'] + (name + seq!['.'] + ext), name) == dir + seq!['/'] + name,
        seed_path(dir + seq!['/'] + (name + seq!['.'] + ext)) == dir + seq!['/'] + name
            + ".cidata.img"@,
{
    a_name_is_split_at_its_last_dot(dir, name, ext);
    let full = name + seq!['.'] + ext;
    let path = dir + seq!['/'] + full;
    assert(!full.contains('/')) by {
        if full.contains('/') {
            let i = choose|i: int| 0 <= i < full.len() && full[i] == '/';
            if i < name.len() {
                assert(name[i] == '/');
            } else if i > name.len() {
                assert(ext[i - name.len() - 1] == '/');
            }
        }
    }
    assert(full != seq!['.']) by {
        if full == seq!['.'] {
            assert(full.len() == 1);
        }
    }
    lemma_file_name(dir + seq!['/'], full);
    lemma_tail(dir + seq!['/'], full);
    assert(trimmed(path) == path);
    let above = path.take(path.len() - full.len());
    assert(above =~= dir + seq!['/']);
    assert(above.drop_last() =~= dir);
    assert(trimmed(above) == trimmed(dir));
    assert(trimmed(dir) == dir);
    assert(joined(dir, name + ".cidata.img"@) =~= dir + seq!['/'] + name + ".cidata.img"@);
}

} // verus!
