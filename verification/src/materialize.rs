//! The project materializer: writes a decoded document into a target
//! directory through the filesystem interface — the target directory first,
//! then the three canonical files, then each source file in order under the
//! collision-avoidance rule. There is no rollback: a failure leaves the
//! earlier writes in place and reports the offending path.
use vstd::prelude::*;
use vstd::string::*;

use crate::fs::{dir_closure, FileSystem};
use crate::schema::{OutputJson, SourceFile};
use crate::strutil::{
    ascii_lower, ascii_lower_char, is_ascii_seq, lowercase, lower_of, seq_contains, str_contains,
};

verus! {

/// A materialization failure: the path whose operation failed and the
/// underlying detail.
#[derive(Debug)]
pub struct MaterializeError {
    pub path: String,
    pub detail: String,
}

/// A filesystem state as the model tracks it: files and directories.
#[verifier::ext_equal]
pub ghost struct FsState {
    pub files: Map<Seq<char>, Seq<char>>,
    pub dirs: Set<Seq<char>>,
}

/// The path of a file named `name` inside `dir`.
pub open spec fn path_of(dir: Seq<char>, name: Seq<char>) -> Seq<char> {
    dir + "/"@ + name
}

/// The length of the prefix of `p` before its last `/`; 0 when `p` has none.
pub open spec fn parent_len(p: Seq<char>) -> int
    decreases p.len(),
{
    if p.len() == 0 {
        0
    } else if p.last() == '/' {
        p.len() - 1
    } else {
        parent_len(p.drop_last())
    }
}

pub proof fn lemma_parent_len_bounds(p: Seq<char>)
    ensures
        0 <= parent_len(p) <= p.len(),
    decreases p.len(),
{
    if p.len() > 0 && p.last() != '/' {
        lemma_parent_len_bounds(p.drop_last());
    }
}

/// Everything before the last `/` of `p`: the directory that must exist for
/// a file at `p` to be written.
pub open spec fn parent_of(p: Seq<char>) -> Seq<char> {
    p.subrange(0, parent_len(p))
}

/// The collision-avoidance rule: a source file whose lowercased name
/// contains "makefile", "dockerfile" or "readme" as a substring is skipped.
pub open spec fn skip_name(name: Seq<char>) -> bool {
    ||| seq_contains(lower_of(name), "makefile"@)
    ||| seq_contains(lower_of(name), "dockerfile"@)
    ||| seq_contains(lower_of(name), "readme"@)
}

/// The effect of handling one source-file entry.
pub open spec fn entry_step(st: FsState, e: SourceFile, dir: Seq<char>) -> FsState {
    if skip_name(e.name@) {
        st
    } else {
        FsState {
            files: st.files.insert(path_of(dir, e.name@), e.contents@),
            dirs: st.dirs.union(dir_closure(parent_of(path_of(dir, e.name@)))),
        }
    }
}

/// The effect of handling a list of entries, in order.
pub open spec fn entries_effect(st: FsState, entries: Seq<SourceFile>, dir: Seq<char>) -> FsState
    decreases entries.len(),
{
    if entries.len() == 0 {
        st
    } else {
        entry_step(entries_effect(st, entries.drop_last(), dir), entries.last(), dir)
    }
}

/// The effect of the fixed steps: the target directory itself and the three
/// canonical files, in order.
pub open spec fn fixed_effect(st: FsState, doc: OutputJson, dir: Seq<char>) -> FsState {
    FsState {
        files: st.files.insert(path_of(dir, "Dockerfile"@), doc.dockerfile@).insert(
            path_of(dir, "Makefile"@),
            doc.makefile@,
        ).insert(path_of(dir, "README.md"@), doc.readme@),
        dirs: st.dirs.union(dir_closure(dir)),
    }
}

/// The complete effect of materializing `doc` into `dir`.
pub open spec fn materialize_effect(st: FsState, doc: OutputJson, dir: Seq<char>) -> FsState {
    entries_effect(fixed_effect(st, doc, dir), doc.source_files@, dir)
}

/// One of the three canonical paths of `dir`.
pub open spec fn protected_key(dir: Seq<char>, q: Seq<char>) -> bool {
    q == path_of(dir, "Dockerfile"@) || q == path_of(dir, "Makefile"@) || q == path_of(
        dir,
        "README.md"@,
    )
}

/// What a failure at entry `j` leaves behind: every entry before `j` took
/// effect, entry `j` wrote nothing (though its parent directories may partly
/// exist), and the reported path is the failing file or its parent.
pub open spec fn failed_at(
    st0: FsState,
    st1: FsState,
    entries: Seq<SourceFile>,
    dir: Seq<char>,
    j: int,
    reported: Seq<char>,
) -> bool {
    let st = entries_effect(st0, entries.take(j), dir);
    let p = path_of(dir, entries[j].name@);
    &&& 0 <= j < entries.len()
    &&& !skip_name(entries[j].name@)
    &&& st1.files == st.files
    &&& st.dirs.subset_of(st1.dirs)
    &&& st1.dirs.subset_of(st.dirs.union(dir_closure(parent_of(p))))
    &&& (reported == p || reported == parent_of(p))
}

/// Some source-file entry failed, leaving the earlier entries' effect behind.
pub open spec fn some_entry_failed(
    st0: FsState,
    st1: FsState,
    entries: Seq<SourceFile>,
    dir: Seq<char>,
    reported: Seq<char>,
) -> bool {
    exists|j: int| failed_at(st0, st1, entries, dir, j, reported)
}

/// The observable outcomes of a failed materialization, by phase: creating
/// the target directory failed (then no file was written), one of the three
/// canonical writes failed, or a source-file entry failed.
pub open spec fn materialize_failed(
    st0: FsState,
    st1: FsState,
    doc: OutputJson,
    dir: Seq<char>,
    reported: Seq<char>,
) -> bool {
    ||| (st1.files == st0.files && st0.dirs.subset_of(st1.dirs) && st1.dirs.subset_of(
        st0.dirs.union(dir_closure(dir)),
    ) && reported == dir)
    ||| ({
        let dirs1 = st0.dirs.union(dir_closure(dir));
        &&& st1.dirs == dirs1
        &&& {
            ||| (st1.files == st0.files && reported == path_of(dir, "Dockerfile"@))
            ||| (st1.files == st0.files.insert(path_of(dir, "Dockerfile"@), doc.dockerfile@)
                && reported == path_of(dir, "Makefile"@))
            ||| (st1.files == st0.files.insert(path_of(dir, "Dockerfile"@), doc.dockerfile@).insert(
                path_of(dir, "Makefile"@),
                doc.makefile@,
            ) && reported == path_of(dir, "README.md"@))
        }
    })
    ||| some_entry_failed(fixed_effect(st0, doc, dir), st1, doc.source_files@, dir, reported)
}

/// The contents the last entry writing to `p` carries, if any entry does.
pub open spec fn last_write(
    entries: Seq<SourceFile>,
    dir: Seq<char>,
    p: Seq<char>,
) -> Option<Seq<char>>
    decreases entries.len(),
{
    if entries.len() == 0 {
        None
    } else if !skip_name(entries.last().name@) && path_of(dir, entries.last().name@) == p {
        Some(entries.last().contents@)
    } else {
        last_write(entries.drop_last(), dir, p)
    }
}

/// Law: duplicate names resolve last-write-wins. After the source-file pass,
/// the contents at any path are those of the last non-skipped entry that
/// writes it; a path no entry writes keeps what it held before.
pub proof fn lemma_last_write_wins(
    st: FsState,
    entries: Seq<SourceFile>,
    dir: Seq<char>,
    p: Seq<char>,
)
    ensures
        match last_write(entries, dir, p) {
            Some(c) => entries_effect(st, entries, dir).files.contains_key(p) && entries_effect(
                st,
                entries,
                dir,
            ).files[p] == c,
            None => entries_effect(st, entries, dir).files.contains_key(p)
                == st.files.contains_key(p) && (st.files.contains_key(p) ==> entries_effect(
                st,
                entries,
                dir,
            ).files[p] == st.files[p]),
        },
    decreases entries.len(),
{
    if entries.len() > 0 {
        lemma_last_write_wins(st, entries.drop_last(), dir, p);
    }
}

/// Law: the collision rule is decisive. A name the rule skips is never
/// written by any source-file pass, whatever the entries: the path of a
/// skipped name keeps exactly what it held before the pass.
pub proof fn lemma_skipped_name_never_written(
    st: FsState,
    entries: Seq<SourceFile>,
    dir: Seq<char>,
    name: Seq<char>,
)
    requires
        skip_name(name),
    ensures
        entries_effect(st, entries, dir).files.contains_key(path_of(dir, name))
            == st.files.contains_key(path_of(dir, name)),
        st.files.contains_key(path_of(dir, name)) ==> entries_effect(
            st,
            entries,
            dir,
        ).files[path_of(dir, name)] == st.files[path_of(dir, name)],
    decreases entries.len(),
{
    if entries.len() > 0 {
        lemma_skipped_name_never_written(st, entries.drop_last(), dir, name);
        let e = entries.last();
        if !skip_name(e.name@) && path_of(dir, e.name@) == path_of(dir, name) {
            lemma_concat_cancel(dir + "/"@, e.name@, name);
            assert(false);
        }
    }
}

/// The directories the source-file pass guarantees on top of what was there.
pub open spec fn entries_dirs(entries: Seq<SourceFile>, dir: Seq<char>) -> Set<Seq<char>>
    decreases entries.len(),
{
    if entries.len() == 0 {
        Set::empty()
    } else if skip_name(entries.last().name@) {
        entries_dirs(entries.drop_last(), dir)
    } else {
        entries_dirs(entries.drop_last(), dir).union(
            dir_closure(parent_of(path_of(dir, entries.last().name@))),
        )
    }
}

/// The source-file pass only ever adds directories, and exactly the parents
/// of the non-skipped entries' paths.
pub proof fn lemma_entries_effect_dirs(st: FsState, entries: Seq<SourceFile>, dir: Seq<char>)
    ensures
        entries_effect(st, entries, dir).dirs == st.dirs.union(entries_dirs(entries, dir)),
    decreases entries.len(),
{
    if entries.len() == 0 {
        assert(st.dirs.union(entries_dirs(entries, dir)) =~= st.dirs);
    } else {
        lemma_entries_effect_dirs(st, entries.drop_last(), dir);
        assert(entries_effect(st, entries, dir).dirs =~= st.dirs.union(
            entries_dirs(entries, dir),
        ));
    }
}

/// Law: materialization is idempotent. Materializing the same document into
/// the same directory twice leaves exactly the files and directories that
/// one materialization leaves.
pub proof fn lemma_materialize_idempotent(st: FsState, doc: OutputJson, dir: Seq<char>)
    ensures
        materialize_effect(materialize_effect(st, doc, dir), doc, dir) == materialize_effect(
            st,
            doc,
            dir,
        ),
{
    let m1 = materialize_effect(st, doc, dir);
    let m2 = materialize_effect(m1, doc, dir);
    let f1 = fixed_effect(st, doc, dir);
    let f2 = fixed_effect(m1, doc, dir);
    lemma_entries_effect_dirs(f1, doc.source_files@, dir);
    lemma_entries_effect_dirs(f2, doc.source_files@, dir);
    assert(m2.dirs =~= m1.dirs);
    assert forall|p: Seq<char>|
        m1.files.contains_key(p) implies #[trigger] m2.files.contains_key(p) && m2.files[p]
        == m1.files[p] by {
        lemma_last_write_wins(f1, doc.source_files@, dir, p);
        lemma_last_write_wins(f2, doc.source_files@, dir, p);
    }
    assert forall|p: Seq<char>| #[trigger] m2.files.contains_key(p) implies m1.files.contains_key(
        p,
    ) by {
        lemma_last_write_wins(f1, doc.source_files@, dir, p);
        lemma_last_write_wins(f2, doc.source_files@, dir, p);
    }
    assert(m2.files =~= m1.files);
    assert(m2 =~= m1);
}

/// Decides the collision-avoidance rule for one name. On ASCII names the
/// outcome is fixed by per-character lowercasing.
pub fn should_skip(name: &str) -> (r: bool)
    ensures
        r == skip_name(name@),
        is_ascii_seq(name@) ==> r == (seq_contains(ascii_lower(name@), "makefile"@)
            || seq_contains(ascii_lower(name@), "dockerfile"@) || seq_contains(
            ascii_lower(name@),
            "readme"@,
        )),
{
    let lower = lowercase(name);
    let a = str_contains(lower.as_str(), "makefile");
    let b = str_contains(lower.as_str(), "dockerfile");
    let c = str_contains(lower.as_str(), "readme");
    a || b || c
}

/// Writes one file through the filesystem interface, wrapping a failure with
/// the offending path.
pub fn create_file<F: FileSystem>(fs: &mut F, file_path: &str, file_contents: &str) -> (r: Result<
    (),
    MaterializeError,
>)
    ensures
        final(fs).dirs() == old(fs).dirs(),
        r is Ok ==> final(fs).files() == old(fs).files().insert(file_path@, file_contents@),
        r matches Err(e) ==> final(fs).files() == old(fs).files() && e.path@ == file_path@,
{
    match fs.write_file(file_path, file_contents) {
        Ok(_) => Ok(()),
        Err(m) => Err(MaterializeError { path: file_path.to_owned(), detail: m }),
    }
}

/// Builds `dir`/`name`.
fn join_path(dir: &str, name: &str) -> (r: String)
    ensures
        r@ == path_of(dir@, name@),
{
    let mut p = dir.to_owned();
    p.append("/");
    p.append(name);
    p
}

/// Computes the prefix of `p` before its last `/`; empty when `p` has none.
fn parent_prefix(p: &str) -> (r: String)
    ensures
        r@ == parent_of(p@),
{
    let n: usize = p.unicode_len();
    let mut k: usize = n;
    proof {
        assert(p@.take(n as int) =~= p@);
    }
    while k > 0
        invariant
            n == p@.len(),
            0 <= k <= n,
            parent_len(p@) == parent_len(p@.take(k as int)),
        decreases k,
    {
        proof {
            assert(p@.take(k as int).last() == p@[k - 1]);
            assert(p@.take(k as int).drop_last() =~= p@.take(k - 1));
        }
        if p.get_char(k - 1) == '/' {
            let s = p.substring_char(0, k - 1);
            proof {
                lemma_parent_len_bounds(p@);
            }
            return s.to_owned();
        }
        k -= 1;
    }
    proof {
        assert(parent_of(p@) =~= Seq::<char>::empty());
    }
    String::new()
}

/// Appending to a common prefix is injective.
pub proof fn lemma_concat_cancel(a: Seq<char>, x: Seq<char>, y: Seq<char>)
    requires
        a + x == a + y,
    ensures
        x == y,
{
    assert(a.len() + x.len() == (a + x).len());
    assert(a.len() + y.len() == (a + y).len());
    assert(x.len() == y.len());
    assert forall|t: int| 0 <= t < x.len() implies x[t] == y[t] by {
        assert((a + x)[a.len() + t] == x[t]);
        assert((a + y)[a.len() + t] == y[t]);
    }
    assert(x =~= y);
}

/// Each canonical file name is ASCII, and its per-character lowercasing
/// contains one of the needles of the collision-avoidance rule.
proof fn lemma_protected_is_skiplike(name: Seq<char>)
    requires
        name == "Dockerfile"@ || name == "Makefile"@ || name == "README.md"@,
    ensures
        is_ascii_seq(name),
        seq_contains(ascii_lower(name), "makefile"@) || seq_contains(
            ascii_lower(name),
            "dockerfile"@,
        ) || seq_contains(ascii_lower(name), "readme"@),
{
    reveal_strlit("Dockerfile");
    reveal_strlit("dockerfile");
    reveal_strlit("Makefile");
    reveal_strlit("makefile");
    reveal_strlit("README.md");
    reveal_strlit("readme");
    if name == "Dockerfile"@ {
        assert(is_ascii_seq(name));
        assert(ascii_lower(name) =~= "dockerfile"@);
        assert(ascii_lower(name).subrange(0, 0 + "dockerfile"@.len() as int) =~= "dockerfile"@);
        assert(seq_contains(ascii_lower(name), "dockerfile"@));
    } else if name == "Makefile"@ {
        assert(is_ascii_seq(name));
        assert(ascii_lower(name) =~= "makefile"@);
        assert(ascii_lower(name).subrange(0, 0 + "makefile"@.len() as int) =~= "makefile"@);
        assert(seq_contains(ascii_lower(name), "makefile"@));
    } else {
        assert(is_ascii_seq(name));
        assert forall|t: int| 0 <= t < "readme"@.len() implies ascii_lower(name).subrange(
            0,
            0 + "readme"@.len() as int,
        )[t] == "readme"@[t] by {
            assert(ascii_lower(name)[t] == ascii_lower_char(name[t]));
        }
        assert(ascii_lower(name).subrange(0, 0 + "readme"@.len() as int) =~= "readme"@);
        assert(seq_contains(ascii_lower(name), "readme"@));
    }
}

/// Writes the source files into `source_files_path`, in order, skipping the
/// entries the collision-avoidance rule names. The three canonical files of
/// the directory are never touched by this pass. A failure stops the loop at
/// once and reports the offending path.
#[verifier::loop_isolation(false)]
pub fn create_source_files<F: FileSystem>(
    fs: &mut F,
    source_files_path: &str,
    source_files: &Vec<SourceFile>,
) -> (r: Result<(), MaterializeError>)
    ensures
        r is Ok ==> ({
            let st = entries_effect(
                (FsState { files: old(fs).files(), dirs: old(fs).dirs() }),
                source_files@,
                source_files_path@,
            );
            final(fs).files() == st.files && final(fs).dirs() == st.dirs
        }),
        r is Ok ==> forall|q: Seq<char>|
            #[trigger] protected_key(source_files_path@, q) ==> final(fs).files().contains_key(q)
                == old(fs).files().contains_key(q) && (old(fs).files().contains_key(q)
                ==> final(fs).files()[q] == old(fs).files()[q]),
        r matches Err(e) ==> some_entry_failed(
            (FsState { files: old(fs).files(), dirs: old(fs).dirs() }),
            (FsState { files: final(fs).files(), dirs: final(fs).dirs() }),
            source_files@,
            source_files_path@,
            e.path@,
        ),
{
    let mut i: usize = 0;
    proof {
        assert(source_files@.take(0) =~= Seq::<SourceFile>::empty());
    }
    while i < source_files.len()
        invariant
            0 <= i <= source_files@.len(),
            ({
                let st = entries_effect(
                    (FsState { files: old(fs).files(), dirs: old(fs).dirs() }),
                    source_files@.take(i as int),
                    source_files_path@,
                );
                fs.files() == st.files && fs.dirs() == st.dirs
            }),
            forall|q: Seq<char>|
                #[trigger] protected_key(source_files_path@, q) ==> fs.files().contains_key(q)
                    == old(fs).files().contains_key(q) && (old(fs).files().contains_key(q)
                    ==> fs.files()[q] == old(fs).files()[q]),
        decreases source_files@.len() - i,
    {
        let entry = &source_files[i];
        let skip = should_skip(entry.name.as_str());
        if !skip {
            let file_path = join_path(source_files_path, entry.name.as_str());
            let parent = parent_prefix(file_path.as_str());
            match fs.create_dir_all(parent.as_str()) {
                Ok(_) => {},
                Err(m) => {
                    let err = MaterializeError { path: parent, detail: m };
                    proof {
                        assert(err.path@ == parent_of(
                            path_of(source_files_path@, source_files@[i as int].name@),
                        ));
                        assert(failed_at(
                            (FsState { files: old(fs).files(), dirs: old(fs).dirs() }),
                            (FsState { files: fs.files(), dirs: fs.dirs() }),
                            source_files@,
                            source_files_path@,
                            i as int,
                            err.path@,
                        ));
                        assert(some_entry_failed(
                            (FsState { files: old(fs).files(), dirs: old(fs).dirs() }),
                            (FsState { files: fs.files(), dirs: fs.dirs() }),
                            source_files@,
                            source_files_path@,
                            err.path@,
                        ));
                    }
                    return Err(err);
                },
            }
            match create_file(fs, file_path.as_str(), entry.contents.as_str()) {
                Ok(_) => {},
                Err(e) => {
                    proof {
                        assert(failed_at(
                            (FsState { files: old(fs).files(), dirs: old(fs).dirs() }),
                            (FsState { files: fs.files(), dirs: fs.dirs() }),
                            source_files@,
                            source_files_path@,
                            i as int,
                            e.path@,
                        ));
                        assert(some_entry_failed(
                            (FsState { files: old(fs).files(), dirs: old(fs).dirs() }),
                            (FsState { files: fs.files(), dirs: fs.dirs() }),
                            source_files@,
                            source_files_path@,
                            e.path@,
                        ));
                    }
                    return Err(e);
                },
            }
            proof {
                assert forall|q: Seq<char>|
                    #[trigger] protected_key(source_files_path@, q) implies q != file_path@ by {
                    if q == file_path@ {
                        if q == path_of(source_files_path@, "Dockerfile"@) {
                            lemma_concat_cancel(
                                source_files_path@ + "/"@,
                                entry.name@,
                                "Dockerfile"@,
                            );
                            lemma_protected_is_skiplike("Dockerfile"@);
                        } else if q == path_of(source_files_path@, "Makefile"@) {
                            lemma_concat_cancel(source_files_path@ + "/"@, entry.name@, "Makefile"@);
                            lemma_protected_is_skiplike("Makefile"@);
                        } else {
                            lemma_concat_cancel(
                                source_files_path@ + "/"@,
                                entry.name@,
                                "README.md"@,
                            );
                            lemma_protected_is_skiplike("README.md"@);
                        }
                        assert(false);
                    }
                }
                assert(source_files@.take(i + 1).drop_last() =~= source_files@.take(i as int));
                assert(source_files@.take(i + 1).last() == source_files@[i as int]);
            }
        } else {
            proof {
                assert(source_files@.take(i + 1).drop_last() =~= source_files@.take(i as int));
                assert(source_files@.take(i + 1).last() == source_files@[i as int]);
            }
        }
        i += 1;
    }
    proof {
        assert(source_files@.take(source_files@.len() as int) =~= source_files@);
    }
    Ok(())
}

/// Materializes a whole document into `target_dir`: creates the directory,
/// writes the three canonical files — overwriting unconditionally — then the
/// source files. On success the three canonical files hold exactly the
/// document's contents: no source-file entry can clobber them.
pub fn materialize<F: FileSystem>(fs: &mut F, document: &OutputJson, target_dir: &str) -> (r:
    Result<(), MaterializeError>)
    ensures
        r is Ok ==> ({
            let st = materialize_effect(
                (FsState { files: old(fs).files(), dirs: old(fs).dirs() }),
                *document,
                target_dir@,
            );
            final(fs).files() == st.files && final(fs).dirs() == st.dirs
        }),
        r is Ok ==> final(fs).files().contains_key(path_of(target_dir@, "Dockerfile"@))
            && final(fs).files()[path_of(target_dir@, "Dockerfile"@)] == document.dockerfile@,
        r is Ok ==> final(fs).files().contains_key(path_of(target_dir@, "Makefile"@))
            && final(fs).files()[path_of(target_dir@, "Makefile"@)] == document.makefile@,
        r is Ok ==> final(fs).files().contains_key(path_of(target_dir@, "README.md"@))
            && final(fs).files()[path_of(target_dir@, "README.md"@)] == document.readme@,
        r matches Err(e) ==> materialize_failed(
            (FsState { files: old(fs).files(), dirs: old(fs).dirs() }),
            (FsState { files: final(fs).files(), dirs: final(fs).dirs() }),
            *document,
            target_dir@,
            e.path@,
        ),
{
    match fs.create_dir_all(target_dir) {
        Ok(_) => {},
        Err(m) => {
            return Err(MaterializeError { path: target_dir.to_owned(), detail: m });
        },
    }
    let dockerfile_path = join_path(target_dir, "Dockerfile");
    match create_file(fs, dockerfile_path.as_str(), document.dockerfile.as_str()) {
        Ok(_) => {},
        Err(e) => {
            return Err(e);
        },
    }
    let makefile_path = join_path(target_dir, "Makefile");
    match create_file(fs, makefile_path.as_str(), document.makefile.as_str()) {
        Ok(_) => {},
        Err(e) => {
            return Err(e);
        },
    }
    let readme_path = join_path(target_dir, "README.md");
    match create_file(fs, readme_path.as_str(), document.readme.as_str()) {
        Ok(_) => {},
        Err(e) => {
            return Err(e);
        },
    }
    proof {
        reveal_strlit("/");
        reveal_strlit("Dockerfile");
        reveal_strlit("Makefile");
        reveal_strlit("README.md");
    }
    let ghost mid = FsState { files: fs.files(), dirs: fs.dirs() };
    proof {
        assert(mid == fixed_effect(
            (FsState { files: old(fs).files(), dirs: old(fs).dirs() }),
            *document,
            target_dir@,
        ));
    }
    let r = create_source_files(fs, target_dir, &document.source_files);
    match r {
        Ok(_) => {
            proof {
                assert(path_of(target_dir@, "Dockerfile"@).len() == target_dir@.len() + 1 + 10);
                assert(path_of(target_dir@, "Makefile"@).len() == target_dir@.len() + 1 + 8);
                assert(path_of(target_dir@, "README.md"@).len() == target_dir@.len() + 1 + 9);
                assert(protected_key(target_dir@, path_of(target_dir@, "Dockerfile"@)));
                assert(protected_key(target_dir@, path_of(target_dir@, "Makefile"@)));
                assert(protected_key(target_dir@, path_of(target_dir@, "README.md"@)));
            }
            Ok(())
        },
        Err(e) => {
            proof {
                assert(some_entry_failed(
                    fixed_effect(
                        (FsState { files: old(fs).files(), dirs: old(fs).dirs() }),
                        *document,
                        target_dir@,
                    ),
                    (FsState { files: fs.files(), dirs: fs.dirs() }),
                    document.source_files@,
                    target_dir@,
                    e.path@,
                ));
            }
            Err(e)
        },
    }
}

} // verus!
