//! Source locations: the identifiers of the files that a build sees and
//! writes.

use crate::pattern::{check_portable, is_portable};
use crate::text::{
    chars_of, ends_with, find_last, has_prefix, has_suffix, last_index_of, lemma_last_index_of,
    starts_with,
};
use vstd::prelude::*;
use vstd::string::*;

verus! {

/// What a source location is: its path, and the fragment that tells apart
/// the locations derived from one path.
pub struct LocationView {
    pub path: Seq<char>,
    pub fragment: Option<usize>,
}

/// The last segment of `path`: what follows its last `/`.
pub open spec fn file_name_of(path: Seq<char>) -> Seq<char> {
    path.skip(last_index_of(path, '/') + 1)
}

/// The directory of `path`: everything up to its last `/`, that `/`
/// included; empty where the path has none.
pub open spec fn directory_of(path: Seq<char>) -> Seq<char> {
    path.take(last_index_of(path, '/') + 1)
}

/// The extension of `path`: what follows the last `.` of its file name, if
/// the file name has one.
pub open spec fn extension_of(path: Seq<char>) -> Option<Seq<char>> {
    let name = file_name_of(path);
    if last_index_of(name, '.') < 0 {
        None
    } else {
        Some(name.skip(last_index_of(name, '.') + 1))
    }
}

/// `root` as the prefix of what lies below it: closed by a `/` unless it is
/// empty or has one already.
pub open spec fn root_prefix(root: Seq<char>) -> Seq<char> {
    if root.len() == 0 || root.last() == '/' {
        root
    } else {
        root.push('/')
    }
}

/// `path` as seen from `root`: what follows the root's prefix where the path
/// lies below the root, else the path itself.
pub open spec fn relative_to(root: Seq<char>, path: Seq<char>) -> Seq<char> {
    if starts_with(path, root_prefix(root)) {
        path.skip(root_prefix(root).len() as int)
    } else {
        path
    }
}

/// A path is its directory followed by its file name, and the file name
/// holds no `/`.
pub proof fn lemma_path_parts(path: Seq<char>)
    ensures
        directory_of(path) + file_name_of(path) == path,
        !file_name_of(path).contains('/'),
        directory_of(path).len() > 0 ==> directory_of(path).last() == '/',
{
    lemma_last_index_of(path, '/');
    let cut = last_index_of(path, '/') + 1;
    assert(path.take(cut) + path.skip(cut) =~= path);
    let name = file_name_of(path);
    if name.contains('/') {
        let i = choose|i: int| 0 <= i < name.len() && name[i] == '/';
        assert(path[cut + i] == '/');
    }
}

/// An absolute identifier of a file-like resource. It does not change once
/// made, and its path holds no backslash: components are divided by `/`.
#[derive(Debug)]
pub struct SourceLocation {
    path: String,
    fragment: Option<usize>,
}

impl View for SourceLocation {
    type V = LocationView;

    closed spec fn view(&self) -> LocationView {
        LocationView { path: self.path@, fragment: self.fragment }
    }
}

impl SourceLocation {
    #[verifier::type_invariant]
    spec fn well_formed(self) -> bool {
        is_portable(self.path@)
    }

    /// Makes the location of `path`, without a fragment. A path with a
    /// backslash in it names no location.
    pub fn parse(path: &str) -> (location: Option<SourceLocation>)
        ensures
            location is Some <==> is_portable(path@),
            location matches Some(l) ==> l@ == (LocationView { path: path@, fragment: None }),
    {
        if check_portable(path) {
            Some(SourceLocation { path: String::from_str(path), fragment: None })
        } else {
            None
        }
    }

    /// The path, which is also the text that patterns are matched against.
    pub fn path(&self) -> (path: &str)
        ensures
            path@ == self@.path,
            is_portable(path@),
    {
        proof {
            use_type_invariant(self);
        }
        self.path.as_str()
    }

    pub fn fragment(&self) -> (fragment: Option<usize>)
        ensures
            fragment == self@.fragment,
    {
        self.fragment
    }

    /// The same path under the fragment `index`.
    pub fn with_fragment(&self, index: usize) -> (derived: SourceLocation)
        ensures
            derived@ == (LocationView { path: self@.path, fragment: Some(index) }),
    {
        proof {
            use_type_invariant(self);
        }
        SourceLocation { path: self.path.clone(), fragment: Some(index) }
    }

    /// Tells whether both name the same resource.
    pub fn same_as(&self, other: &SourceLocation) -> (same: bool)
        ensures
            same == (self@ == other@),
    {
        let same_fragment = match (self.fragment, other.fragment) {
            (Some(a), Some(b)) => a == b,
            (None, None) => true,
            _ => false,
        };
        same_fragment && self.path == other.path
    }

    /// Tells whether the path ends with `suffix`.
    pub fn path_ends_with(&self, suffix: &str) -> (yes: bool)
        ensures
            yes == ends_with(self@.path, suffix@),
    {
        let path = chars_of(self.path.as_str());
        let wanted = chars_of(suffix);
        has_suffix(&path, &wanted)
    }

    /// The last segment of the path.
    pub fn file_name(&self) -> (name: String)
        ensures
            name@ == file_name_of(self@.path),
    {
        let path = chars_of(self.path.as_str());
        proof {
            lemma_last_index_of(path@, '/');
        }
        let start: usize = match find_last(&path, '/') {
            Some(k) => k + 1,
            None => 0,
        };
        String::from_str(self.path.as_str().substring_char(start, path.len()))
    }

    /// The directory that holds this location, closed by `/`.
    pub fn directory(&self) -> (directory: String)
        ensures
            directory@ == directory_of(self@.path),
    {
        let path = chars_of(self.path.as_str());
        proof {
            lemma_last_index_of(path@, '/');
        }
        let end: usize = match find_last(&path, '/') {
            Some(k) => k + 1,
            None => 0,
        };
        String::from_str(self.path.as_str().substring_char(0, end))
    }

    /// The extension of the file name, without its dot.
    pub fn extension(&self) -> (extension: Option<String>)
        ensures
            extension is Some <==> extension_of(self@.path) is Some,
            extension matches Some(e) ==> Some(e@) == extension_of(self@.path),
    {
        let name = self.file_name();
        let chars = chars_of(name.as_str());
        proof {
            lemma_last_index_of(chars@, '.');
        }
        match find_last(&chars, '.') {
            Some(k) => Some(String::from_str(name.as_str().substring_char(k + 1, chars.len()))),
            None => None,
        }
    }

    /// The path of `target` as seen from this location, taken as a root
    /// directory.
    pub fn relative_path(&self, target: &str) -> (relative: String)
        ensures
            relative@ == relative_to(self@.path, target@),
    {
        let mut prefix = chars_of(self.path.as_str());
        if prefix.len() > 0 && prefix[prefix.len() - 1] != '/' {
            prefix.push('/');
        }
        assert(prefix@ == root_prefix(self@.path));
        let path = chars_of(target);
        if has_prefix(&path, &prefix) {
            String::from_str(target.substring_char(prefix.len(), path.len()))
        } else {
            String::from_str(target)
        }
    }
}

impl Clone for SourceLocation {
    fn clone(&self) -> (copy: Self)
        ensures
            copy@ == self@,
    {
        proof {
            use_type_invariant(self);
        }
        SourceLocation { path: self.path.clone(), fragment: self.fragment }
    }
}

} // verus!
