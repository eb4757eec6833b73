use vstd::prelude::*;

use crate::text::{push_str, str_eq};

verus! {

/// One file of a class path entry: its path inside the directory or
/// archive, and its bytes.
pub struct ClassPathFile {
    pub name: String,
    pub data: Vec<u8>,
}

/// A directory or an archive of the class path, as the files it holds.
pub struct ClassPathEntry {
    pub files: Vec<ClassPathFile>,
}

/// Where classes are looked for: the bootstrap entries first, then the
/// extension entries, then the application entries, each list in order.
pub struct ClassPath {
    pub bootstrap: Vec<ClassPathEntry>,
    pub extension: Vec<ClassPathEntry>,
    pub application: Vec<ClassPathEntry>,
}

/// A file as its path and bytes.
pub type FileModel = (Seq<char>, Seq<u8>);

/// The files of an entry, in order.
pub open spec fn entry_files(e: ClassPathEntry) -> Seq<FileModel> {
    e.files@.map_values(|f: ClassPathFile| (f.name@, f.data@))
}

/// The files of a list of entries, one entry after the other.
pub open spec fn entries_files(es: Seq<ClassPathEntry>) -> Seq<FileModel>
    decreases es.len(),
{
    if es.len() == 0 {
        Seq::empty()
    } else {
        entries_files(es.drop_last()) + entry_files(es.last())
    }
}

/// All files of the class path, in the order they are searched.
pub open spec fn search_order(cp: ClassPath) -> Seq<FileModel> {
    entries_files(cp.bootstrap@) + entries_files(cp.extension@) + entries_files(cp.application@)
}

/// The bytes of the first of `files` with path `name`.
pub open spec fn first_file(files: Seq<FileModel>, name: Seq<char>) -> Option<Seq<u8>>
    decreases files.len(),
{
    if files.len() == 0 {
        None
    } else if files[0].0 == name {
        Some(files[0].1)
    } else {
        first_file(files.drop_first(), name)
    }
}

/// The file name under which class `binary_name` is stored.
pub open spec fn class_file_name(binary_name: Seq<char>) -> Seq<char> {
    binary_name + seq!['.', 'c', 'l', 'a', 's', 's']
}

/// Looking in `a` then in `b` is looking in `a + b`.
pub proof fn lemma_first_file_concat(a: Seq<FileModel>, b: Seq<FileModel>, name: Seq<char>)
    ensures
        first_file(a + b, name) == match first_file(a, name) {
            Some(d) => Some(d),
            None => first_file(b, name),
        },
    decreases a.len(),
{
    if a.len() == 0 {
        assert(a + b =~= b);
    } else {
        assert((a + b).drop_first() =~= a.drop_first() + b);
        lemma_first_file_concat(a.drop_first(), b, name);
    }
}

/// A class file in the bootstrap entries is the one found, whatever the
/// extension and application entries hold; one in the extension entries
/// is found before any of the application entries.
pub proof fn lemma_search_order(cp: ClassPath, name: Seq<char>)
    ensures
        first_file(entries_files(cp.bootstrap@), name) is Some ==> first_file(search_order(cp), name)
            == first_file(entries_files(cp.bootstrap@), name),
        first_file(entries_files(cp.bootstrap@), name) is None ==> first_file(search_order(cp), name)
            == match first_file(entries_files(cp.extension@), name) {
            Some(d) => Some(d),
            None => first_file(entries_files(cp.application@), name),
        },
{
    let (b, e, a) = (
        entries_files(cp.bootstrap@),
        entries_files(cp.extension@),
        entries_files(cp.application@),
    );
    assert(b + e + a =~= b + (e + a));
    lemma_first_file_concat(b, e + a, name);
    lemma_first_file_concat(e, a, name);
}

/// Adding an entry at the end of any list never changes the file found
/// for a class that was found before.
pub proof fn lemma_add_keeps_found(cp: ClassPath, more: ClassPath, name: Seq<char>)
    requires
        first_file(search_order(cp), name) is Some,
        more.bootstrap@ == cp.bootstrap@ && more.extension@ == cp.extension@ && exists|x: ClassPathEntry|
            more.application@ == cp.application@.push(x),
    ensures
        first_file(search_order(more), name) == first_file(search_order(cp), name),
{
    let x = choose|x: ClassPathEntry| more.application@ == cp.application@.push(x);
    assert(more.application@.drop_last() =~= cp.application@);
    let (b, e, a) = (
        entries_files(cp.bootstrap@),
        entries_files(cp.extension@),
        entries_files(cp.application@),
    );
    assert(search_order(more) =~= search_order(cp) + entry_files(x));
    lemma_first_file_concat(search_order(cp), entry_files(x), name);
}

fn copy_bytes(v: &Vec<u8>) -> (r: Vec<u8>)
    ensures
        r@ == v@,
{
    let mut out: Vec<u8> = Vec::with_capacity(v.len());
    let mut i: usize = 0;
    while i < v.len()
        invariant
            i <= v@.len(),
            out@ == v@.subrange(0, i as int),
        decreases v@.len() - i,
    {
        out.push(v[i]);
        i = i + 1;
    }
    proof {
        assert(out@ =~= v@);
    }
    out
}

/// The bytes of the first file of `entries` named `name`.
fn find_in(entries: &Vec<ClassPathEntry>, name: &str) -> (r: Option<Vec<u8>>)
    ensures
        match first_file(entries_files(entries@), name@) {
            Some(d) => r is Some && r->Some_0@ == d,
            None => r is None,
        },
{
    let mut i: usize = 0;
    while i < entries.len()
        invariant
            i <= entries@.len(),
            first_file(entries_files(entries@.subrange(0, i as int)), name@) is None,
        decreases entries@.len() - i,
    {
        let ghost done = entries@.subrange(0, i as int);
        proof {
            assert(entries@.subrange(0, i + 1).drop_last() =~= done);
            lemma_first_file_concat(entries_files(done), entry_files(entries@[i as int]), name@);
        }
        let files = &entries[i].files;
        let ghost fs = entry_files(entries@[i as int]);
        let mut j: usize = 0;
        proof {
            assert(fs.subrange(0, fs.len() as int) =~= fs);
        }
        while j < files.len()
            invariant
                i < entries@.len(),
                fs == files@.map_values(|f: ClassPathFile| (f.name@, f.data@)),
                fs == entry_files(entries@[i as int]),
                files@ == entries@[i as int].files@,
                first_file(entries_files(entries@.subrange(0, i as int)), name@) is None,
                first_file(entries_files(entries@.subrange(0, i + 1)), name@) == first_file(fs, name@),
                j <= files@.len(),
                first_file(fs, name@) == first_file(fs.subrange(j as int, fs.len() as int), name@),
            decreases files@.len() - j,
        {
            let f = &files[j];
            proof {
                let rest = fs.subrange(j as int, fs.len() as int);
                assert(rest[0] == (f.name@, f.data@));
                assert(rest.drop_first() =~= fs.subrange(j + 1, fs.len() as int));
            }
            if str_eq(f.name.as_str(), name) {
                proof {
                    lemma_first_file_concat(
                        entries_files(entries@.subrange(0, i + 1)),
                        entries_files(entries@.subrange(i + 1, entries@.len() as int)),
                        name@,
                    );
                    lemma_entries_files_split(entries@, i + 1);
                    assert(fs.subrange(j as int, fs.len() as int)[0].0 == name@);
                }
                return Some(copy_bytes(&f.data));
            }
            j = j + 1;
        }
        proof {
            assert(fs.subrange(j as int, fs.len() as int).len() == 0);
        }
        i = i + 1;
    }
    proof {
        assert(entries@.subrange(0, entries@.len() as int) =~= entries@);
    }
    None
}

/// The files of `es` are those of its first `k` entries and then those of
/// the rest.
proof fn lemma_entries_files_split(es: Seq<ClassPathEntry>, k: int)
    requires
        0 <= k <= es.len(),
    ensures
        entries_files(es) == entries_files(es.subrange(0, k)) + entries_files(
            es.subrange(k, es.len() as int),
        ),
    decreases es.len() - k,
{
    if k == es.len() {
        assert(es.subrange(0, k) =~= es);
        assert(es.subrange(k, es.len() as int) =~= Seq::<ClassPathEntry>::empty());
        assert(entries_files(es) + Seq::<FileModel>::empty() =~= entries_files(es));
    } else {
        lemma_entries_files_split(es, k + 1);
        let a = es.subrange(0, k);
        let b = es.subrange(k, es.len() as int);
        let b1 = es.subrange(k + 1, es.len() as int);
        lemma_entries_files_prepend(es[k], b1);
        assert(b =~= seq![es[k]] + b1);
        assert(es.subrange(0, k + 1).drop_last() =~= a);
        assert(entries_files(a) + entry_files(es[k]) + entries_files(b1) =~= entries_files(a) + (
        entry_files(es[k]) + entries_files(b1)));
    }
}

/// The files of an entry followed by entries `rest`.
proof fn lemma_entries_files_prepend(e: ClassPathEntry, rest: Seq<ClassPathEntry>)
    ensures
        entries_files(seq![e] + rest) == entry_files(e) + entries_files(rest),
    decreases rest.len(),
{
    if rest.len() == 0 {
        assert(seq![e] + rest =~= seq![e]);
        assert(seq![e].drop_last() =~= Seq::<ClassPathEntry>::empty());
        assert(seq![e].last() == e);
        assert(entries_files(Seq::<ClassPathEntry>::empty()) == Seq::<FileModel>::empty());
        assert(entry_files(e) + Seq::<FileModel>::empty() =~= entry_files(e));
        assert(Seq::<FileModel>::empty() + entry_files(e) =~= entry_files(e));
    } else {
        lemma_entries_files_prepend(e, rest.drop_last());
        assert((seq![e] + rest).drop_last() =~= seq![e] + rest.drop_last());
        assert((seq![e] + rest).last() == rest.last());
        assert(entry_files(e) + entries_files(rest.drop_last()) + entry_files(rest.last())
            =~= entry_files(e) + (entries_files(rest.drop_last()) + entry_files(rest.last())));
    }
}

impl ClassPath {
    /// A class path with no entries.
    pub fn empty() -> (r: Self)
        ensures
            r.bootstrap@.len() == 0,
            r.extension@.len() == 0,
            r.application@.len() == 0,
    {
        Self { bootstrap: Vec::new(), extension: Vec::new(), application: Vec::new() }
    }

    /// Adds an entry after the other bootstrap entries.
    pub fn add_bootstrap(&mut self, entry: ClassPathEntry)
        ensures
            final(self).bootstrap@ == old(self).bootstrap@.push(entry),
            final(self).extension@ == old(self).extension@,
            final(self).application@ == old(self).application@,
    {
        self.bootstrap.push(entry);
    }

    /// Adds an entry after the other extension entries.
    pub fn add_extension(&mut self, entry: ClassPathEntry)
        ensures
            final(self).bootstrap@ == old(self).bootstrap@,
            final(self).extension@ == old(self).extension@.push(entry),
            final(self).application@ == old(self).application@,
    {
        self.extension.push(entry);
    }

    /// Adds an entry after the other application entries.
    pub fn add_application(&mut self, entry: ClassPathEntry)
        ensures
            final(self).bootstrap@ == old(self).bootstrap@,
            final(self).extension@ == old(self).extension@,
            final(self).application@ == old(self).application@.push(entry),
    {
        self.application.push(entry);
    }

    /// The bytes of the class file of `binary_name` (`java/lang/Object` is
    /// stored as `java/lang/Object.class`): the first such file in the
    /// bootstrap, then the extension, then the application entries.
    pub fn find_class(&self, binary_name: &str) -> (r: Option<Vec<u8>>)
        ensures
            match first_file(search_order(*self), class_file_name(binary_name@)) {
                Some(d) => r is Some && r->Some_0@ == d,
                None => r is None,
            },
    {
        let mut name = String::new();
        push_str(&mut name, binary_name);
        push_str(&mut name, ".class");
        proof {
            reveal_strlit(".class");
            assert(name@ =~= class_file_name(binary_name@));
            lemma_first_file_concat(
                entries_files(self.bootstrap@) + entries_files(self.extension@),
                entries_files(self.application@),
                name@,
            );
            lemma_first_file_concat(
                entries_files(self.bootstrap@),
                entries_files(self.extension@),
                name@,
            );
        }
        match find_in(&self.bootstrap, name.as_str()) {
            Some(d) => {
                return Some(d);
            },
            None => {},
        }
        match find_in(&self.extension, name.as_str()) {
            Some(d) => {
                return Some(d);
            },
            None => {},
        }
        find_in(&self.application, name.as_str())
    }
}

} // verus!
