//! The filesystem capability interface that the materializer writes through,
//! and a verified in-memory implementation of it, so the write algorithm can
//! be exercised without touching a real disk.
use vstd::prelude::*;
use vstd::string::*;

use crate::strutil::str_eq;

verus! {

/// True when `q` is one of the directories that creating `p` (with all its
/// ancestors) brings into existence: a non-empty prefix of `p` ending at a
/// `/` boundary, `p` itself included.
pub open spec fn is_dir_prefix(p: Seq<char>, q: Seq<char>) -> bool {
    0 < q.len() <= p.len() && q == p.subrange(0, q.len() as int) && (q.len() == p.len() || p[q.len() as int]
        == '/')
}

/// The set of directories one `create_dir_all(p)` call guarantees.
pub open spec fn dir_closure(p: Seq<char>) -> Set<Seq<char>> {
    Set::new(|q: Seq<char>| is_dir_prefix(p, q))
}

/// A filesystem as the materializer sees it: files as a map from path to
/// text, directories as a set of paths. This interface is the only mutation
/// the core performs.
pub trait FileSystem {
    /// The files: path to contents.
    spec fn files(&self) -> Map<Seq<char>, Seq<char>>;

    /// The directories known to exist.
    spec fn dirs(&self) -> Set<Seq<char>>;

    /// Creates `path` and all its missing ancestors. Never touches files; on
    /// failure, at most some of the ancestors came into existence.
    fn create_dir_all(&mut self, path: &str) -> (r: Result<(), String>)
        ensures
            final(self).files() == old(self).files(),
            r is Ok ==> final(self).dirs() == old(self).dirs().union(dir_closure(path@)),
            r is Err ==> old(self).dirs().subset_of(final(self).dirs()) && final(self).dirs().subset_of(
                old(self).dirs().union(dir_closure(path@)),
            ),
    ;

    /// Writes `contents` to `path`, overwriting any earlier file there. On
    /// failure nothing changes.
    fn write_file(&mut self, path: &str, contents: &str) -> (r: Result<(), String>)
        ensures
            final(self).dirs() == old(self).dirs(),
            r is Ok ==> final(self).files() == old(self).files().insert(path@, contents@),
            r is Err ==> final(self).files() == old(self).files(),
    ;
}

/// An in-memory filesystem: the ordered write log and the directory requests,
/// plus a list of paths whose writes fail, for exercising error handling.
pub struct MemFs {
    pub writes: Vec<(String, String)>,
    pub dir_requests: Vec<String>,
    pub denied: Vec<String>,
}

impl MemFs {
    /// The file map an ordered write log leaves behind: later writes win.
    pub open spec fn files_of(ws: Seq<(String, String)>) -> Map<Seq<char>, Seq<char>>
        decreases ws.len(),
    {
        if ws.len() == 0 {
            Map::empty()
        } else {
            Self::files_of(ws.drop_last()).insert(ws.last().0@, ws.last().1@)
        }
    }

    /// The directories a list of `create_dir_all` requests guarantees.
    pub open spec fn dirs_of(rs: Seq<String>) -> Set<Seq<char>>
        decreases rs.len(),
    {
        if rs.len() == 0 {
            Set::empty()
        } else {
            Self::dirs_of(rs.drop_last()).union(dir_closure(rs.last()@))
        }
    }

    /// True when writes to `p` are made to fail.
    pub open spec fn denies(&self, p: Seq<char>) -> bool {
        exists|i: int| 0 <= i < self.denied@.len() && (#[trigger] self.denied@[i])@ == p
    }

    /// An empty filesystem that denies nothing.
    pub fn new() -> (r: MemFs)
        ensures
            r.files() == Map::<Seq<char>, Seq<char>>::empty(),
            r.dirs() == Set::<Seq<char>>::empty(),
            r.denied@.len() == 0,
    {
        MemFs { writes: Vec::new(), dir_requests: Vec::new(), denied: Vec::new() }
    }

    /// Makes every later write to `path` fail.
    pub fn deny(&mut self, path: &str)
        ensures
            final(self).files() == old(self).files(),
            final(self).dirs() == old(self).dirs(),
            final(self).denies(path@),
    {
        self.denied.push(path.to_owned());
        proof {
            assert((self.denied@[self.denied@.len() - 1])@ == path@);
        }
    }

    fn is_denied(&self, path: &str) -> (r: bool)
        ensures
            r == self.denies(path@),
    {
        let mut i: usize = 0;
        while i < self.denied.len()
            invariant
                0 <= i <= self.denied@.len(),
                forall|j: int| 0 <= j < i ==> (#[trigger] self.denied@[j])@ != path@,
            decreases self.denied@.len() - i,
        {
            if str_eq(self.denied[i].as_str(), path) {
                return true;
            }
            i += 1;
        }
        false
    }

    /// The contents at `path`, when that file exists.
    pub fn read(&self, path: &str) -> (r: Option<&String>)
        ensures
            match r {
                Some(s) => self.files().contains_key(path@) && self.files()[path@] == s@,
                None => !self.files().contains_key(path@),
            },
    {
        let mut i: usize = self.writes.len();
        proof {
            assert(self.writes@.take(self.writes@.len() as int) =~= self.writes@);
        }
        while i > 0
            invariant
                0 <= i <= self.writes@.len(),
                Self::files_of(self.writes@).contains_key(path@) == Self::files_of(
                    self.writes@.take(i as int),
                ).contains_key(path@),
                Self::files_of(self.writes@).contains_key(path@) ==> Self::files_of(
                    self.writes@,
                )[path@] == Self::files_of(self.writes@.take(i as int))[path@],
            decreases i,
        {
            let pair = &self.writes[i - 1];
            proof {
                assert(self.writes@.take(i as int).last() == self.writes@[i - 1]);
                assert(self.writes@.take(i as int).drop_last() =~= self.writes@.take(i - 1));
            }
            if str_eq(pair.0.as_str(), path) {
                return Some(&pair.1);
            }
            i -= 1;
        }
        proof {
            assert(self.writes@.take(0).len() == 0);
        }
        None
    }

    proof fn lemma_dirs_of_contains(rs: Seq<String>, q: Seq<char>)
        ensures
            Self::dirs_of(rs).contains(q) <==> exists|i: int|
                0 <= i < rs.len() && is_dir_prefix((#[trigger] rs[i])@, q),
        decreases rs.len(),
    {
        if rs.len() > 0 {
            Self::lemma_dirs_of_contains(rs.drop_last(), q);
            if Self::dirs_of(rs).contains(q) {
                if Self::dirs_of(rs.drop_last()).contains(q) {
                    let i = choose|i: int|
                        0 <= i < rs.drop_last().len() && is_dir_prefix(
                            (#[trigger] rs.drop_last()[i])@,
                            q,
                        );
                    assert(rs[i] == rs.drop_last()[i]);
                    assert(is_dir_prefix((rs[i])@, q));
                } else {
                    assert(is_dir_prefix((rs[rs.len() - 1])@, q));
                }
            }
            if exists|i: int| 0 <= i < rs.len() && is_dir_prefix((#[trigger] rs[i])@, q) {
                let i = choose|i: int| 0 <= i < rs.len() && is_dir_prefix((#[trigger] rs[i])@, q);
                if i < rs.len() - 1 {
                    assert(rs.drop_last()[i] == rs[i]);
                    assert(Self::dirs_of(rs.drop_last()).contains(q));
                } else {
                    assert(dir_closure(rs.last()@).contains(q));
                }
            }
        }
    }

    /// Whether `path` is among the directories guaranteed so far.
    pub fn has_dir(&self, path: &str) -> (r: bool)
        ensures
            r == self.dirs().contains(path@),
    {
        proof {
            Self::lemma_dirs_of_contains(self.dir_requests@, path@);
        }
        let mut i: usize = 0;
        while i < self.dir_requests.len()
            invariant
                0 <= i <= self.dir_requests@.len(),
                self.dirs().contains(path@) <==> exists|j: int|
                    0 <= j < self.dir_requests@.len() && is_dir_prefix(
                        (#[trigger] self.dir_requests@[j])@,
                        path@,
                    ),
                forall|j: int|
                    0 <= j < i ==> !is_dir_prefix((#[trigger] self.dir_requests@[j])@, path@),
            decreases self.dir_requests@.len() - i,
        {
            if is_dir_prefix_exec(self.dir_requests[i].as_str(), path) {
                return true;
            }
            i += 1;
        }
        false
    }
}

/// Decides `is_dir_prefix` on real strings, character by character.
pub fn is_dir_prefix_exec(p: &str, q: &str) -> (r: bool)
    ensures
        r == is_dir_prefix(p@, q@),
{
    let lp: usize = p.unicode_len();
    let lq: usize = q.unicode_len();
    if lq == 0 || lq > lp {
        return false;
    }
    let mut k: usize = 0;
    while k < lq
        invariant
            lp == p@.len(),
            lq == q@.len(),
            0 < lq <= lp,
            0 <= k <= lq,
            forall|t: int| 0 <= t < k ==> p@[t] == q@[t],
        decreases lq - k,
    {
        if p.get_char(k) != q.get_char(k) {
            proof {
                assert(p@.subrange(0, lq as int)[k as int] == p@[k as int]);
            }
            return false;
        }
        k += 1;
    }
    proof {
        assert(q@ =~= p@.subrange(0, lq as int));
    }
    if lq == lp {
        true
    } else {
        p.get_char(lq) == '/'
    }
}

impl FileSystem for MemFs {
    open spec fn files(&self) -> Map<Seq<char>, Seq<char>> {
        Self::files_of(self.writes@)
    }

    open spec fn dirs(&self) -> Set<Seq<char>> {
        Self::dirs_of(self.dir_requests@)
    }

    fn create_dir_all(&mut self, path: &str) -> (r: Result<(), String>)
        ensures
            r is Ok,
    {
        self.dir_requests.push(path.to_owned());
        proof {
            assert(self.dir_requests@.drop_last() =~= old(self).dir_requests@);
        }
        Ok(())
    }

    fn write_file(&mut self, path: &str, contents: &str) -> (r: Result<(), String>)
        ensures
            r is Err <==> old(self).denies(path@),
    {
        if self.is_denied(path) {
            return Err(String::from_str("write denied"));
        }
        self.writes.push((path.to_owned(), contents.to_owned()));
        proof {
            assert(self.writes@.drop_last() =~= old(self).writes@);
        }
        Ok(())
    }
}

} // verus!
