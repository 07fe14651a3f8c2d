use vstd::prelude::*;

verus! {

/// A regular file of the listing, or one key of the store with the size of its value.
pub struct ExtractedFile {
    pub name: String,
    pub size: usize,
}

/// A directory of the listing with its children in first-seen order.
pub struct ExtractedDirectory {
    pub name: String,
    pub children: Vec<ExtractedEntry>,
}

/// One node of the file tree.
pub enum ExtractedEntry {
    File(ExtractedFile),
    Directory(ExtractedDirectory),
}

/// The mathematical shape of a tree node: names as character sequences, sizes as naturals.
pub enum EntryModel {
    File { name: Seq<char>, size: nat },
    Directory { name: Seq<char>, children: Seq<EntryModel> },
}

/// The model of one node.
pub open spec fn entry_model(e: ExtractedEntry) -> EntryModel
    decreases e,
{
    match e {
        ExtractedEntry::File(f) => EntryModel::File { name: f.name@, size: f.size as nat },
        ExtractedEntry::Directory(d) => EntryModel::Directory {
            name: d.name@,
            children: entries_model(d.children@),
        },
    }
}

/// The models of a sequence of nodes, in order.
pub open spec fn entries_model(s: Seq<ExtractedEntry>) -> Seq<EntryModel>
    decreases s,
{
    if s.len() == 0 {
        seq![]
    } else {
        entries_model(s.drop_last()).push(entry_model(s.last()))
    }
}

/// Every node of a sequence of nodes is modelled in place.
pub proof fn lemma_entries_model(s: Seq<ExtractedEntry>)
    ensures
        entries_model(s).len() == s.len(),
        forall|i: int| 0 <= i < s.len() ==> #[trigger] entries_model(s)[i] == entry_model(s[i]),
    decreases s.len(),
{
    if s.len() > 0 {
        lemma_entries_model(s.drop_last());
    }
}

/// Whether `e` is a directory called exactly `name`.
pub open spec fn is_directory_named(e: EntryModel, name: Seq<char>) -> bool {
    match e {
        EntryModel::Directory { name: n, .. } => n == name,
        EntryModel::File { .. } => false,
    }
}

/// The children of a directory; a file has none.
pub open spec fn children_of(e: EntryModel) -> Seq<EntryModel> {
    match e {
        EntryModel::Directory { children, .. } => children,
        EntryModel::File { .. } => seq![],
    }
}

/// The first position at or after `i` that holds a directory called `name`.
pub open spec fn dir_position_from(s: Seq<EntryModel>, name: Seq<char>, i: int) -> Option<int>
    decreases s.len() - i,
{
    if 0 <= i < s.len() {
        if is_directory_named(s[i], name) {
            Some(i)
        } else {
            dir_position_from(s, name, i + 1)
        }
    } else {
        None
    }
}

proof fn lemma_dir_position_from(s: Seq<EntryModel>, name: Seq<char>, k: int)
    requires
        0 <= k,
    ensures
        match dir_position_from(s, name, k) {
            Some(i) => k <= i < s.len() && is_directory_named(s[i], name),
            None => true,
        },
    decreases s.len() - k,
{
    if k < s.len() && !is_directory_named(s[k], name) {
        lemma_dir_position_from(s, name, k + 1);
    }
}

proof fn lemma_dir_position_none(s: Seq<EntryModel>, name: Seq<char>, k: int)
    requires
        0 <= k,
        dir_position_from(s, name, k) is None,
    ensures
        forall|j: int| k <= j < s.len() ==> !is_directory_named(#[trigger] s[j], name),
    decreases s.len() - k,
{
    if k < s.len() {
        lemma_dir_position_none(s, name, k + 1);
    }
}

/// The first position of a directory called `name` among `s`.
pub open spec fn dir_position(s: Seq<EntryModel>, name: Seq<char>) -> Option<int> {
    dir_position_from(s, name, 0)
}

/// The children `s` after placing `leaf` at the path `parts`: every segment but the last names
/// a directory, found by exact name or else appended; the leaf is appended to the innermost one.
pub open spec fn inserted(s: Seq<EntryModel>, parts: Seq<Seq<char>>, leaf: EntryModel) -> Seq<
    EntryModel,
>
    decreases parts.len(),
{
    if parts.len() == 0 {
        s
    } else if parts.len() == 1 {
        s.push(leaf)
    } else {
        let rest = parts.drop_first();
        match dir_position(s, parts[0]) {
            Some(i) => s.update(
                i,
                EntryModel::Directory {
                    name: parts[0],
                    children: inserted(children_of(s[i]), rest, leaf),
                },
            ),
            None => s.push(
                EntryModel::Directory { name: parts[0], children: inserted(seq![], rest, leaf) },
            ),
        }
    }
}

/// No two directories among `s` share a name, and the same holds inside every directory.
pub open spec fn unique_dirs(s: Seq<EntryModel>) -> bool
    decreases s,
{
    &&& forall|i: int, j: int|
        0 <= i < j < s.len() && (#[trigger] s[i]) is Directory ==> !is_directory_named(
            #[trigger] s[j],
            s[i]->Directory_name,
        )
    &&& forall|i: int|
        0 <= i < s.len() ==> match #[trigger] s[i] {
            EntryModel::Directory { children, .. } => unique_dirs(children),
            EntryModel::File { .. } => true,
        }
}

/// Placing a file never makes a second directory of a name: a directory is created only where
/// none of that name exists, and reused for every later path through it.
pub proof fn law_directories_unique(s: Seq<EntryModel>, parts: Seq<Seq<char>>, leaf: EntryModel)
    requires
        unique_dirs(s),
        leaf is File,
    ensures
        unique_dirs(inserted(s, parts, leaf)),
    decreases parts.len(),
{
    if parts.len() == 1 {
        let r = s.push(leaf);
        assert forall|i: int| 0 <= i < r.len() implies match #[trigger] r[i] {
            EntryModel::Directory { children, .. } => unique_dirs(children),
            EntryModel::File { .. } => true,
        } by {
            if i < s.len() {
                assert(r[i] == s[i]);
            }
        }
    } else if parts.len() > 1 {
        let rest = parts.drop_first();
        match dir_position(s, parts[0]) {
            Some(i) => {
                lemma_dir_position_from(s, parts[0], 0);
                let c = children_of(s[i]);
                assert(unique_dirs(c));
                law_directories_unique(c, rest, leaf);
                let d = EntryModel::Directory { name: parts[0], children: inserted(c, rest, leaf) };
                let r = s.update(i, d);
                assert forall|a: int, b: int|
                    0 <= a < b < r.len() && (#[trigger] r[a]) is Directory implies !is_directory_named(
                    #[trigger] r[b],
                    r[a]->Directory_name,
                ) by {
                    if a != i && b != i {
                        assert(r[a] == s[a] && r[b] == s[b]);
                    } else if a == i {
                        assert(r[b] == s[b]);
                    } else {
                        assert(r[a] == s[a]);
                    }
                }
                assert forall|k: int| 0 <= k < r.len() implies match #[trigger] r[k] {
                    EntryModel::Directory { children, .. } => unique_dirs(children),
                    EntryModel::File { .. } => true,
                } by {
                    if k != i {
                        assert(r[k] == s[k]);
                    }
                }
                assert(inserted(s, parts, leaf) == r);
            },
            None => {
                lemma_dir_position_none(s, parts[0], 0);
                law_directories_unique(seq![], rest, leaf);
                let d = EntryModel::Directory {
                    name: parts[0],
                    children: inserted(seq![], rest, leaf),
                };
                let r = s.push(d);
                assert forall|a: int, b: int|
                    0 <= a < b < r.len() && (#[trigger] r[a]) is Directory implies !is_directory_named(
                    #[trigger] r[b],
                    r[a]->Directory_name,
                ) by {
                    assert(r[a] == s[a]);
                    if b < s.len() {
                        assert(r[b] == s[b]);
                    } else {
                        assert(!is_directory_named(s[a], parts[0]));
                    }
                }
                assert forall|k: int| 0 <= k < r.len() implies match #[trigger] r[k] {
                    EntryModel::Directory { children, .. } => unique_dirs(children),
                    EntryModel::File { .. } => true,
                } by {
                    if k < s.len() {
                        assert(r[k] == s[k]);
                    }
                }
                assert(inserted(s, parts, leaf) == r);
            },
        }
    }
}

/// The names that a sequence of path segments holds.
pub open spec fn names_of(parts: Seq<String>) -> Seq<Seq<char>> {
    parts.map_values(|p: String| p@)
}

/// Position of the first directory child called `name`.
fn find_directory(dir: &Vec<ExtractedEntry>, name: &String) -> (r: Option<usize>)
    ensures
        match r {
            Some(i) => dir_position(entries_model(dir@), name@) == Some(i as int),
            None => dir_position(entries_model(dir@), name@) is None,
        },
{
    let ghost m = entries_model(dir@);
    proof {
        lemma_entries_model(dir@);
    }
    let mut i: usize = 0;
    while i < dir.len()
        invariant
            i <= dir.len(),
            m == entries_model(dir@),
            m.len() == dir@.len(),
            forall|j: int| 0 <= j < dir@.len() ==> #[trigger] m[j] == entry_model(dir@[j]),
            dir_position_from(m, name@, 0) == dir_position_from(m, name@, i as int),
        decreases dir.len() - i,
    {
        match &dir[i] {
            ExtractedEntry::Directory(d) => {
                if d.name == *name {
                    return Some(i);
                }
            },
            ExtractedEntry::File(_) => {},
        }
        i = i + 1;
    }
    None
}

fn insert_parts(
    dir: &mut Vec<ExtractedEntry>,
    path_parts: &[String],
    start: usize,
    entry: ExtractedEntry,
)
    requires
        start <= path_parts@.len(),
    ensures
        entries_model(final(dir)@) == inserted(
            entries_model(old(dir)@),
            names_of(path_parts@).subrange(start as int, path_parts@.len() as int),
            entry_model(entry),
        ),
    decreases path_parts@.len() - start,
{
    let ghost parts = names_of(path_parts@).subrange(start as int, path_parts@.len() as int);
    let ghost before = entries_model(dir@);
    proof {
        lemma_entries_model(dir@);
    }
    if start == path_parts.len() {
        return;
    }
    if path_parts.len() - start == 1 {
        dir.push(entry);
        proof {
            lemma_entries_model(dir@);
            assert(entries_model(dir@) =~= before.push(entry_model(entry)));
        }
        return;
    }
    let ghost rest = names_of(path_parts@).subrange(start + 1, path_parts@.len() as int);
    assert(parts.drop_first() =~= rest);
    let current: &String = &path_parts[start];
    match find_directory(dir, current) {
        Some(i) => {
            proof {
                lemma_dir_position_from(before, current@, 0);
            }
            match &mut dir[i] {
                ExtractedEntry::Directory(sub_dir) => {
                    insert_parts(&mut sub_dir.children, path_parts, start + 1, entry);
                },
                ExtractedEntry::File(_) => {},
            }
            proof {
                lemma_entries_model(dir@);
                assert(entries_model(dir@) =~= inserted(before, parts, entry_model(entry)));
            }
        },
        None => {
            let mut new_dir = ExtractedDirectory { name: current.clone(), children: Vec::new() };
            insert_parts(&mut new_dir.children, path_parts, start + 1, entry);
            proof {
                assert(entries_model(Seq::<ExtractedEntry>::empty()) =~= seq![]);
            }
            dir.push(ExtractedEntry::Directory(new_dir));
            proof {
                lemma_entries_model(dir@);
                assert(entries_model(dir@) =~= inserted(before, parts, entry_model(entry)));
            }
        },
    }
}

/// Places `entry` in the tree `dir` at the path `path_parts`, creating each missing directory
/// on the way; an empty path leaves the tree as it is.
pub fn insert_entry(dir: &mut Vec<ExtractedEntry>, path_parts: &[String], entry: ExtractedEntry)
    ensures
        entries_model(final(dir)@) == inserted(
            entries_model(old(dir)@),
            names_of(path_parts@),
            entry_model(entry),
        ),
{
    insert_parts(dir, path_parts, 0, entry);
    assert(names_of(path_parts@).subrange(0, path_parts@.len() as int) =~= names_of(path_parts@));
}


/// The pieces of `s` between occurrences of `sep`, in order, empty pieces included.
pub open spec fn split_on(s: Seq<char>, sep: char) -> Seq<Seq<char>>
    decreases s.len(),
{
    if s.len() == 0 {
        seq![seq![]]
    } else {
        let rest = split_on(s.drop_first(), sep);
        if s[0] == sep {
            seq![seq![]] + rest
        } else {
            rest.update(0, seq![s[0]] + rest[0])
        }
    }
}

proof fn lemma_split_on_nonempty(s: Seq<char>, sep: char)
    ensures
        split_on(s, sep).len() >= 1,
    decreases s.len(),
{
    if s.len() > 0 {
        lemma_split_on_nonempty(s.drop_first(), sep);
    }
}

/// Relies on str::split with a char pattern: the pieces between the separators, in order,
/// empty ones included.
#[verifier::external_body]
fn split_path(path: &str) -> (r: Vec<String>)
    ensures
        names_of(r@) == split_on(path@, '/'),
{
    path.split('/').map(|p| p.to_string()).collect()
}

/// The tree `root` after adding a file of `size` bytes at the slash-delimited `path`.
pub open spec fn with_file(root: Seq<EntryModel>, path: Seq<char>, size: nat) -> Seq<EntryModel> {
    let parts = split_on(path, '/');
    inserted(root, parts, EntryModel::File { name: parts.last(), size })
}

/// Adds a file of `size` bytes at the slash-delimited archive path `path`; the file is named
/// after the last segment.
pub fn insert_file(root: &mut Vec<ExtractedEntry>, path: &String, size: usize)
    ensures
        entries_model(final(root)@) == with_file(entries_model(old(root)@), path@, size as nat),
{
    let path_parts = split_path(path.as_str());
    proof {
        lemma_split_on_nonempty(path@, '/');
    }
    let last = path_parts.len() - 1;
    let name = path_parts[last].clone();
    assert(names_of(path_parts@)[last as int] == path_parts@[last as int]@);
    let entry = ExtractedEntry::File(ExtractedFile { name, size });
    insert_entry(root, path_parts.as_slice(), entry);
}

/// One member of an archive as the listing sees it: its path, whether it denotes a directory,
/// its declared decompressed size, and whether it can be opened.
pub type MemberModel = (Seq<char>, bool, u64, bool);

/// The tree that the members of an archive give, in archive order; directory members add
/// nothing of their own.
pub open spec fn tree_of(members: Seq<MemberModel>) -> Seq<EntryModel>
    decreases members.len(),
{
    if members.len() == 0 {
        seq![]
    } else {
        let prev = tree_of(members.drop_last());
        let m = members.last();
        if m.1 {
            prev
        } else {
            with_file(prev, m.0, m.2 as usize as nat)
        }
    }
}

/// Every tree that an archive gives has at most one directory of each name at every level.
pub proof fn law_archive_tree_unique(members: Seq<MemberModel>)
    ensures
        unique_dirs(tree_of(members)),
    decreases members.len(),
{
    if members.len() > 0 {
        law_archive_tree_unique(members.drop_last());
        let m = members.last();
        if !m.1 {
            let parts = split_on(m.0, '/');
            law_directories_unique(
                tree_of(members.drop_last()),
                parts,
                EntryModel::File { name: parts.last(), size: m.2 as usize as nat },
            );
        }
    }
}

/// An archive whose members are all directories, or that has none, gives an empty tree.
pub proof fn law_no_files_empty_tree(members: Seq<MemberModel>)
    requires
        forall|i: int| 0 <= i < members.len() ==> (#[trigger] members[i]).1,
    ensures
        tree_of(members) == Seq::<EntryModel>::empty(),
    decreases members.len(),
{
    if members.len() > 0 {
        law_no_files_empty_tree(members.drop_last());
        assert(members.last().1);
    }
}

/// Two files placed under one two-level prefix, one after the other, share a single directory
/// at each level and keep their order of insertion.
pub proof fn law_shared_prefix(
    top: Seq<char>,
    sub: Seq<char>,
    first: Seq<char>,
    first_size: nat,
    second: Seq<char>,
    second_size: nat,
)
    ensures
        inserted(
            inserted(
                seq![],
                seq![top, sub, first],
                EntryModel::File { name: first, size: first_size },
            ),
            seq![top, sub, second],
            EntryModel::File { name: second, size: second_size },
        ) == seq![
            EntryModel::Directory {
                name: top,
                children: seq![
                    EntryModel::Directory {
                        name: sub,
                        children: seq![
                            EntryModel::File { name: first, size: first_size },
                            EntryModel::File { name: second, size: second_size },
                        ],
                    },
                ],
            },
        ],
{
    let f1 = EntryModel::File { name: first, size: first_size };
    let f2 = EntryModel::File { name: second, size: second_size };
    let p1 = seq![top, sub, first];
    let p2 = seq![top, sub, second];
    assert(p1.drop_first() =~= seq![sub, first]);
    assert(p1.drop_first().drop_first() =~= seq![first]);
    assert(p2.drop_first() =~= seq![sub, second]);
    assert(p2.drop_first().drop_first() =~= seq![second]);
    let inner1 = inserted(seq![], seq![first], f1);
    assert(inner1 =~= seq![f1]);
    let mid1 = inserted(seq![], seq![sub, first], f1);
    assert(mid1 =~= seq![EntryModel::Directory { name: sub, children: seq![f1] }]);
    let t1 = inserted(seq![], p1, f1);
    assert(t1 =~= seq![EntryModel::Directory { name: top, children: mid1 }]);
    assert(dir_position(t1, top) == Some(0int));
    assert(dir_position(mid1, sub) == Some(0int));
    assert(inserted(seq![f1], seq![second], f2) =~= seq![f1, f2]);
    let mid2 = inserted(mid1, seq![sub, second], f2);
    assert(mid2 =~= seq![EntryModel::Directory { name: sub, children: seq![f1, f2] }]);
    assert(inserted(t1, p2, f2) =~= seq![EntryModel::Directory { name: top, children: mid2 }]);
}

} // verus!
