//! Paths of targets and of metadata.

use vstd::prelude::*;
use vstd::string::*;

use crate::error::Error;
use crate::metadata::{HashValue, Role};

verus! {

/// A component of the path `s` begins at `i`.
pub open spec fn component_begins(s: Seq<char>, i: int) -> bool {
    0 <= i <= s.len() && (i == 0 || s[i - 1] == '/')
}

/// A component of the path `s` ends before `i`.
pub open spec fn component_ends(s: Seq<char>, i: int) -> bool {
    i == s.len() || (0 <= i < s.len() && s[i] == '/')
}

/// `.` or `..` is what the path `s` has at `i`, up to the end of the component.
pub open spec fn dots_at(s: Seq<char>, i: int) -> bool {
    &&& i < s.len()
    &&& s[i] == '.'
    &&& component_ends(s, i + 1) || (i + 1 < s.len() && s[i + 1] == '.' && component_ends(s, i + 2))
}

/// A path that a repository may hold: not empty, relative, and without a component `.` or `..`,
/// so that it cannot lead out of the directory it is resolved in.
pub open spec fn safe_path(s: Seq<char>) -> bool {
    &&& s.len() > 0
    &&& s[0] != '/'
    &&& forall|i: int| #[trigger] component_begins(s, i) ==> !dots_at(s, i)
}

/// The characters of `s`.
fn characters(s: &str) -> (r: Vec<char>)
    ensures
        r@ == s@,
{
    let mut r: Vec<char> = Vec::new();
    for c in it: s.chars()
        invariant
            r@ == it.seq().take(it.index() as int),
            it.seq() == s@,
    {
        r.push(c);
    }
    r
}

/// Whether a component of the path ends before `i`.
fn is_component_end(s: &Vec<char>, i: usize) -> (r: bool)
    requires
        i <= s@.len(),
    ensures
        r == component_ends(s@, i as int),
{
    i == s.len() || s[i] == '/'
}

/// Whether `value` is a path that a repository may hold.
pub fn is_safe_path(value: &str) -> (r: bool)
    ensures
        r == safe_path(value@),
{
    let s = characters(value);
    let n: usize = s.len();
    if n == 0 || s[0] == '/' {
        return false;
    }
    let mut i: usize = 0;
    while i < n
        invariant
            i <= n,
            n == s@.len(),
            s@ == value@,
            forall|j: int| 0 <= j < i && #[trigger] component_begins(s@, j) ==> !dots_at(s@, j),
        decreases n - i,
    {
        if s[i] == '.' && (i == 0 || s[i - 1] == '/') {
            let one = is_component_end(&s, i + 1);
            let two = i + 1 < n && s[i + 1] == '.' && is_component_end(&s, i + 2);
            if one || two {
                assert(component_begins(s@, i as int));
                assert(dots_at(s@, i as int));
                return false;
            }
        }
        i = i + 1;
    }
    true
}

/// The path of a target as its file is stored.
#[derive(Debug, PartialEq, Eq)]
pub struct TargetPath {
    value: String,
}

impl View for TargetPath {
    type V = Seq<char>;

    closed spec fn view(&self) -> Seq<char> {
        self.value@
    }
}

impl TargetPath {
    #[verifier::type_invariant]
    spec fn is_safe(self) -> bool {
        safe_path(self.value@)
    }

    /// The path `value`, if it is one that a repository may hold.
    pub fn new(value: String) -> (r: Result<TargetPath, Error>)
        ensures
            r is Ok <==> safe_path(value@),
            r matches Ok(path) ==> path@ == value@,
            r matches Err(e) ==> e == Error::IllegalPath(value),
    {
        if is_safe_path(value.as_str()) {
            Ok(TargetPath { value })
        } else {
            Err(Error::IllegalPath(value))
        }
    }

    /// The path as text.
    pub fn value(&self) -> (r: &str)
        ensures
            r@ == self@,
            safe_path(r@),
    {
        proof {
            use_type_invariant(self);
        }
        self.value.as_str()
    }

    /// The path `$HASH.FILENAME` in the same directory, where target files stand in a repository
    /// with consistent snapshots.
    pub fn with_hash_prefix(&self, hash: &HashValue) -> (r: Result<TargetPath, Error>)
        ensures
            r is Ok <==> safe_path(hash_prefixed(self@, hash.hex@)),
            r matches Ok(path) ==> path@ == hash_prefixed(self@, hash.hex@),
            r matches Err(e) ==> (e matches Error::IllegalPath(value) && value@ == hash_prefixed(
                self@,
                hash.hex@,
            )),
    {
        let s = characters(self.value.as_str());
        let mut at: usize = s.len();
        assert(s@.take(at as int) =~= s@);
        while at > 0 && s[at - 1] != '/'
            invariant
                at <= s@.len(),
                s@ == self@,
                file_begins(s@) == file_begins(s@.take(at as int)),
            decreases at,
        {
            assert(s@.take(at as int).drop_last() =~= s@.take(at - 1));
            at = at - 1;
        }
        proof {
            assert(file_begins(s@) == at);
            assert(self@.take(at as int) =~= self@.subrange(0, at as int));
            assert(self@.skip(at as int) =~= self@.subrange(at as int, self@.len() as int));
        }
        let mut value = self.value.as_str().substring_char(0, at).to_owned();
        value.append(hash.hex.as_str());
        value.append(".");
        value.append(self.value.as_str().substring_char(at, s.len()));
        TargetPath::new(value)
    }
}

impl Clone for TargetPath {
    fn clone(&self) -> (r: Self)
        ensures
            r == *self,
            safe_path(r@),
    {
        proof {
            use_type_invariant(self);
        }
        TargetPath { value: self.value.clone() }
    }
}

/// Where the file name of the path `s` begins: behind the last `/`.
pub open spec fn file_begins(s: Seq<char>) -> int
    decreases s.len(),
{
    if s.len() == 0 || s.last() == '/' {
        s.len() as int
    } else {
        file_begins(s.drop_last())
    }
}

/// The path `s` with `hash` and a dot before the file name.
pub open spec fn hash_prefixed(s: Seq<char>, hash: Seq<char>) -> Seq<char> {
    s.take(file_begins(s)) + hash + "."@ + s.skip(file_begins(s))
}

/// The path of a target as metadata refers to it.
#[derive(Debug, PartialEq, Eq)]
pub struct VirtualTargetPath {
    value: String,
}

impl View for VirtualTargetPath {
    type V = Seq<char>;

    closed spec fn view(&self) -> Seq<char> {
        self.value@
    }
}

/// The path `s` lies in the directory `parent`, which is written with a `/` at its end.
pub open spec fn in_directory(s: Seq<char>, parent: Seq<char>) -> bool {
    parent.len() > 0 && parent.last() == '/' && parent.is_prefix_of(s)
}

impl VirtualTargetPath {
    #[verifier::type_invariant]
    spec fn is_safe(self) -> bool {
        safe_path(self.value@)
    }

    /// The path `value`, if it is one that a repository may hold.
    pub fn new(value: String) -> (r: Result<VirtualTargetPath, Error>)
        ensures
            r is Ok <==> safe_path(value@),
            r matches Ok(path) ==> path@ == value@,
            r matches Err(e) ==> e == Error::IllegalPath(value),
    {
        if is_safe_path(value.as_str()) {
            Ok(VirtualTargetPath { value })
        } else {
            Err(Error::IllegalPath(value))
        }
    }

    /// The path as text.
    pub fn value(&self) -> (r: &str)
        ensures
            r@ == self@,
            safe_path(r@),
    {
        proof {
            use_type_invariant(self);
        }
        self.value.as_str()
    }

    /// Whether this path lies in the directory `parent`.
    pub fn is_child(&self, parent: &VirtualTargetPath) -> (r: bool)
        ensures
            r == in_directory(self@, parent@),
    {
        let s = characters(self.value.as_str());
        let p = characters(parent.value.as_str());
        let n: usize = p.len();
        if n == 0 || p[n - 1] != '/' || n > s.len() {
            return false;
        }
        let mut i: usize = 0;
        while i < n
            invariant
                i <= n,
                n == p@.len(),
                n <= s@.len(),
                s@ == self@,
                p@ == parent@,
                forall|j: int| 0 <= j < i ==> s@[j] == p@[j],
            decreases n - i,
        {
            if s[i] != p[i] {
                assert(s@.subrange(0, n as int)[i as int] != p@[i as int]);
                return false;
            }
            i = i + 1;
        }
        assert(s@.subrange(0, n as int) =~= p@);
        true
    }
}

impl Clone for VirtualTargetPath {
    fn clone(&self) -> (r: Self)
        ensures
            r == *self,
    {
        proof {
            use_type_invariant(self);
        }
        VirtualTargetPath { value: self.value.clone() }
    }
}

/// The path of a metadata file: that of a top-level role, or the name of a delegated role.
#[derive(Debug)]
pub enum MetadataPath {
    Role(Role),
    Delegated(String),
}

impl View for MetadataPath {
    type V = Seq<char>;

    /// The path as text.
    open spec fn view(&self) -> Seq<char> {
        match self {
            MetadataPath::Role(role) => role.spec_name(),
            MetadataPath::Delegated(name) => name@,
        }
    }
}

impl MetadataPath {
    /// The path of a top-level role's metadata.
    pub fn from_role(role: &Role) -> (r: MetadataPath)
        ensures
            r == MetadataPath::Role(*role),
            r@ == role.spec_name(),
    {
        MetadataPath::Role(*role)
    }

    /// The path as text.
    pub fn value(&self) -> (r: &str)
        ensures
            r@ == self@,
    {
        match self {
            MetadataPath::Role(role) => role.name(),
            MetadataPath::Delegated(name) => name.as_str(),
        }
    }
}

impl Clone for MetadataPath {
    fn clone(&self) -> (r: Self)
        ensures
            r == *self,
    {
        match self {
            MetadataPath::Role(role) => MetadataPath::Role(*role),
            MetadataPath::Delegated(name) => MetadataPath::Delegated(name.clone()),
        }
    }
}

} // verus!
