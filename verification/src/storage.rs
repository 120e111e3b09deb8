//! Where encrypted files and upload chunks are kept on disk, and how the chunks that
//! arrived are recognised again by their file names.
use vstd::prelude::*;
use crate::text::{chars_of, decimal, parse_u64, parse_unsigned, push_all, u64_to_decimal};

verus! {

broadcast use vstd::seq_lib::to_multiset_build, vstd::seq_lib::to_multiset_insert;

#[verifier::external_type_specification]
#[verifier::external_body]
pub struct ExIoError(std::io::Error);

/// Why a storage operation failed.
#[derive(Debug)]
pub enum StorageError {
    IoError(std::io::Error),
    NotFound(String),
}

/// The text of an I/O error (`std::io::Error`'s `Display`).
#[verifier::external_body]
fn io_error_text(e: &std::io::Error) -> String {
    e.to_string()
}

impl StorageError {
    /// The error's text, as it is shown to a user: `IO error: ...` or
    /// `file not found: <name>`.
    pub fn message(&self) -> (r: String)
        ensures
            self matches StorageError::NotFound(n) ==> r@ == "file not found: "@ + n@,
            self is IoError ==> exists|t: Seq<char>| r@ == "IO error: "@ + t,
    {
        let mut r = String::new();
        match self {
            StorageError::IoError(e) => {
                push_all(&mut r, "IO error: ");
                let t = io_error_text(e);
                push_all(&mut r, t.as_str());
                assert(r@ == "IO error: "@ + t@);
            },
            StorageError::NotFound(n) => {
                push_all(&mut r, "file not found: ");
                push_all(&mut r, n.as_str());
            },
        }
        r
    }
}

/// `base` joined with `name` as `Path::join` does on Unix: an absolute name replaces the
/// base, otherwise a `/` separates them unless the base is empty or already ends in one.
pub open spec fn path_join(base: Seq<char>, name: Seq<char>) -> Seq<char> {
    if name.len() > 0 && name[0] == '/' {
        name
    } else if base.len() > 0 && base.last() != '/' {
        base + seq!['/'] + name
    } else {
        base + name
    }
}

/// Joins a path and a name (`Path::join` on Unix).
pub fn join_path(base: &str, name: &str) -> (r: String)
    ensures
        r@ == path_join(base@, name@),
{
    let n = chars_of(name);
    let b = chars_of(base);
    if n.len() > 0 && n[0] == '/' {
        return String::from_str(name);
    }
    let mut r = String::from_str(base);
    if b.len() > 0 && b[b.len() - 1] != '/' {
        crate::text::push_char(&mut r, '/');
    }
    push_all(&mut r, name);
    r
}

/// Storage of complete encrypted files: `<base>/<id>.enc`.
#[derive(Clone)]
pub struct Storage {
    pub base_path: String,
}

impl Storage {
    pub fn new(base_path: String) -> (r: Self)
        ensures
            r.base_path@ == base_path@,
    {
        Storage { base_path }
    }

    /// The path of a stored file.
    pub fn file_path(&self, id: &str) -> (r: String)
        ensures
            r@ == path_join(self.base_path@, id@ + ".enc"@),
    {
        let mut name = String::from_str(id);
        push_all(&mut name, ".enc");
        join_path(self.base_path.as_str(), name.as_str())
    }
}

/// Storage for chunked uploads: `<base>/<upload id>/<n>.chunk`.
pub struct ChunkStorage {
    pub base_path: String,
}

/// The file name of chunk `n`.
pub open spec fn chunk_file_name(n: u64) -> Seq<char> {
    decimal(n as nat) + ".chunk"@
}

impl ChunkStorage {
    pub fn new(base_path: String) -> (r: Self)
        ensures
            r.base_path@ == base_path@,
    {
        ChunkStorage { base_path }
    }

    /// The directory that holds the chunks of an upload.
    pub fn chunk_dir(&self, upload_id: &str) -> (r: String)
        ensures
            r@ == path_join(self.base_path@, upload_id@),
    {
        join_path(self.base_path.as_str(), upload_id)
    }

    /// The path of one chunk of an upload.
    pub fn chunk_path(&self, upload_id: &str, chunk_num: u64) -> (r: String)
        ensures
            r@ == path_join(path_join(self.base_path@, upload_id@), chunk_file_name(chunk_num)),
    {
        let dir = self.chunk_dir(upload_id);
        let mut name = u64_to_decimal(chunk_num);
        push_all(&mut name, ".chunk");
        join_path(dir.as_str(), name.as_str())
    }
}

/// The chunk number that a file name gives: the name without its `.chunk` suffix, read as
/// a `u64`.
pub open spec fn chunk_number_of(name: Seq<char>) -> Option<u64> {
    if name.len() >= 6 && name.skip(name.len() - 6) == ".chunk"@ {
        match parse_unsigned(name.take(name.len() - 6), u64::MAX as nat) {
            Some(v) => Some(v as u64),
            None => None,
        }
    } else {
        None
    }
}

/// Reads a chunk number from a file name (`strip_suffix(".chunk")` and `parse::<u64>`).
pub fn chunk_number(name: &str) -> (r: Option<u64>)
    ensures
        r == chunk_number_of(name@),
{
    let cs = chars_of(name);
    let suffix = chars_of(".chunk");
    let ghost sfx = ".chunk"@;
    proof { reveal_strlit(".chunk"); }
    if cs.len() < suffix.len() {
        return None;
    }
    let start = cs.len() - suffix.len();
    let mut j: usize = start;
    while j < cs.len()
        invariant
            cs@ == name@,
            suffix@ == sfx,
            sfx == ".chunk"@,
            start + suffix@.len() == cs@.len(),
            start <= j <= cs@.len(),
            forall|k: int| start <= k < j ==> cs@[k] == suffix@[k - start],
        decreases cs.len() - j,
    {
        if cs[j] != suffix[j - start] {
            assert(name@.skip(start as int)[j - start] != sfx[j - start]);
            assert(name@.skip(start as int) != sfx);
            proof { reveal_strlit(".chunk"); }
            assert(chunk_number_of(name@) is None);
            return None;
        }
        j = j + 1;
    }
    assert(name@.skip(start as int) =~= sfx);
    let stem = name.substring_char(0, start);
    assert(stem@ =~= name@.take(start as int));
    parse_u64(stem)
}

/// Values in ascending order.
pub open spec fn ascending(s: Seq<u64>) -> bool {
    forall|i: int, j: int| 0 <= i <= j < s.len() ==> s[i] <= s[j]
}

/// Sorts numbers in ascending order (as `sort` does), keeping repeated values.
pub fn sort_ascending(v: &Vec<u64>) -> (r: Vec<u64>)
    ensures
        ascending(r@),
        r@.to_multiset() == v@.to_multiset(),
{
    let mut r: Vec<u64> = Vec::new();
    let mut i: usize = 0;
    assert(v@.take(0) =~= r@);
    while i < v.len()
        invariant
            i <= v@.len(),
            ascending(r@),
            r@.to_multiset() == v@.take(i as int).to_multiset(),
        decreases v.len() - i,
    {
        let x = v[i];
        let mut p: usize = 0;
        while p < r.len() && r[p] <= x
            invariant
                p <= r@.len(),
                forall|k: int| 0 <= k < p ==> r@[k] <= x,
            decreases r.len() - p,
        {
            p = p + 1;
        }
        let ghost before = r@;
        r.insert(p, x);
        assert(r@ == before.insert(p as int, x));
        assert(ascending(r@)) by {
            assert forall|a: int, b: int| 0 <= a <= b < r@.len() implies r@[a] <= r@[b] by {
                if a < p && b > p {
                    assert(r@[a] == before[a]);
                    assert(r@[b] == before[b - 1]);
                } else if a < p && b == p {
                } else if a == p && b > p {
                    assert(r@[b] == before[b - 1]);
                    assert(before[p as int] > x);
                    assert(before[p as int] <= before[b - 1]);
                } else if a > p {
                    assert(r@[a] == before[a - 1]);
                    assert(r@[b] == before[b - 1]);
                } else if b < p {
                } else {
                }
            }
        }
        assert(v@.take(i + 1) =~= v@.take(i as int).push(x));
        i = i + 1;
    }
    assert(v@.take(v@.len() as int) =~= v@);
    r
}

/// The chunk numbers that a list of file names holds.
pub open spec fn chunk_numbers(names: Seq<Option<String>>) -> Seq<u64>
    decreases names.len(),
{
    if names.len() == 0 {
        Seq::empty()
    } else {
        chunk_numbers(names.drop_last()) + match names.last() {
            Some(n) => match chunk_number_of(n@) {
                Some(k) => seq![k],
                None => Seq::empty(),
            },
            None => Seq::empty(),
        }
    }
}

/// The chunks that an upload directory holds, in ascending order, given the names of its
/// entries (`None` for a name that is not UTF-8). Names that are not `<n>.chunk` are
/// skipped.
pub fn received_chunk_numbers(names: &Vec<Option<String>>) -> (r: Vec<u64>)
    ensures
        ascending(r@),
        r@.to_multiset() == chunk_numbers(names@).to_multiset(),
{
    let mut found: Vec<u64> = Vec::new();
    let mut i: usize = 0;
    while i < names.len()
        invariant
            i <= names@.len(),
            found@ == chunk_numbers(names@.take(i as int)),
        decreases names.len() - i,
    {
        assert(names@.take(i + 1).drop_last() =~= names@.take(i as int));
        match &names[i] {
            Some(n) => match chunk_number(n.as_str()) {
                Some(k) => {
                    found.push(k);
                },
                None => {},
            },
            None => {},
        }
        assert(found@ =~= chunk_numbers(names@.take(i + 1)));
        i = i + 1;
    }
    assert(names@.take(names@.len() as int) =~= names@);
    sort_ascending(&found)
}

} // verus!
