//! The context of one build run, and the queries that conversion strategies
//! put to it.

use crate::location::{extension_of, LocationView, SourceLocation};
use crate::pattern::{
    accepted_by, check_pattern, glob_match, glob_matches, is_portable, usable_pattern,
};
use crate::select::{
    first_marked, lemma_lists_exactly_same, lists_exactly, marked, marked_places,
};
use crate::text::texts;
use vstd::prelude::*;
use vstd::string::*;

verus! {

/// The key under which a run's context is kept in a shared cache.
#[derive(Debug, Clone, Copy)]
pub struct ProcessCtxKey;

/// What all pipelines of one run share. It is made before the first pipeline
/// runs and read, never changed, while they run.
#[derive(Debug)]
pub struct ProcessCtx {
    /// Every input file that the build sees, in a fixed order.
    pub files: Vec<SourceLocation>,
    /// A glob pattern that input files have to match, where there is one.
    pub input_file_filter: Option<String>,
    pub package_name: String,
    pub in_root: SourceLocation,
    pub out_root: SourceLocation,
}

pub struct ProcessView {
    pub files: Seq<LocationView>,
    pub input_file_filter: Option<Seq<char>>,
    pub package_name: Seq<char>,
    pub in_root: LocationView,
    pub out_root: LocationView,
}

/// The views of `files`, in their order.
pub open spec fn location_views(files: Seq<SourceLocation>) -> Seq<LocationView> {
    Seq::new(files.len(), |i: int| files[i]@)
}

impl View for ProcessCtx {
    type V = ProcessView;

    open spec fn view(&self) -> ProcessView {
        ProcessView {
            files: location_views(self.files@),
            input_file_filter: match self.input_file_filter {
                Some(filter) => Some(filter@),
                None => None,
            },
            package_name: self.package_name@,
            in_root: self.in_root@,
            out_root: self.out_root@,
        }
    }
}

/// `files[i]` is the first file whose path `pattern` matches.
pub open spec fn is_first_match(files: Seq<LocationView>, pattern: Seq<char>, i: int) -> bool {
    &&& 0 <= i < files.len()
    &&& glob_matches(pattern, files[i].path)
    &&& forall|j: int| 0 <= j < i ==> !glob_matches(pattern, #[trigger] files[j].path)
}

/// `pattern` matches the path of no file.
pub open spec fn no_match(files: Seq<LocationView>, pattern: Seq<char>) -> bool {
    forall|j: int| 0 <= j < files.len() ==> !glob_matches(pattern, #[trigger] files[j].path)
}

/// A pattern has one first match at most, and none where it matches no
/// file.
pub proof fn lemma_first_match_unique(
    files: Seq<LocationView>,
    pattern: Seq<char>,
    i: int,
    j: int,
)
    requires
        is_first_match(files, pattern, i),
        is_first_match(files, pattern, j),
    ensures
        i == j,
        !no_match(files, pattern),
{
    if i < j {
        assert(!glob_matches(pattern, files[i].path));
    }
    if j < i {
        assert(!glob_matches(pattern, files[j].path));
    }
}

/// Why a lookup by pattern gave no file.
#[derive(Debug)]
pub enum FindFileError {
    /// The pattern cannot be matched with.
    InvalidPattern { pattern: String },
    /// The pattern matches no file of the source set.
    NoMatch { pattern: String },
}

impl FindFileError {
    /// The pattern that the lookup was made with.
    pub fn pattern(&self) -> (pattern: &String)
        ensures
            *pattern == match self {
                FindFileError::InvalidPattern { pattern } => *pattern,
                FindFileError::NoMatch { pattern } => *pattern,
            },
    {
        match self {
            FindFileError::InvalidPattern { pattern } => pattern,
            FindFileError::NoMatch { pattern } => pattern,
        }
    }

    /// The failure in words, for the user.
    pub fn message(&self) -> (text: String)
        ensures
            text@ == match self {
                FindFileError::InvalidPattern { pattern } => "Invalid file pattern "@ + pattern@,
                FindFileError::NoMatch { pattern } => "Failed to find file with pattern "@
                    + pattern@,
            },
    {
        match self {
            FindFileError::InvalidPattern { pattern } => String::from_str(
                "Invalid file pattern ",
            ).concat(pattern.as_str()),
            FindFileError::NoMatch { pattern } => String::from_str(
                "Failed to find file with pattern ",
            ).concat(pattern.as_str()),
        }
    }
}

/// Why the files of a pipeline could not be selected.
#[derive(Debug, Clone, Copy, PartialEq, Eq, Structural)]
pub enum SelectError {
    /// The run's input file filter cannot be matched with.
    InvalidInputFilter,
    /// The source pattern at this place cannot be matched with; those before
    /// it can.
    InvalidSource(usize),
}

/// A pipeline with the source patterns `sources` takes the file at `path`,
/// in a run with the input file filter `filter`.
pub open spec fn file_selected(
    sources: Seq<Seq<char>>,
    filter: Option<Seq<char>>,
    path: Seq<char>,
) -> bool {
    accepted_by(sources, path) && match filter {
        Some(f) => glob_matches(f, path),
        None => true,
    }
}

/// The condition under which a pipeline with the source patterns `sources`
/// takes the file at a place of the source set: the file is selected, and
/// has the extension `extension` where one is asked for.
pub open spec fn selection(
    process: ProcessView,
    sources: Seq<Seq<char>>,
    extension: Option<Seq<char>>,
) -> spec_fn(int) -> bool {
    |i: int|
        file_selected(sources, process.input_file_filter, process.files[i].path) && (extension
            matches Some(e) ==> extension_of(process.files[i].path) == Some(e))
}

/// Every pattern of `patterns` can be matched with.
pub open spec fn all_usable(patterns: Seq<Seq<char>>) -> bool {
    forall|k: int| 0 <= k < patterns.len() ==> usable_pattern(#[trigger] patterns[k])
}

/// Files can be selected with the source patterns `sources` under the input
/// file filter `filter`: each of these patterns can be matched with.
pub open spec fn selectable(sources: Seq<Seq<char>>, filter: Option<Seq<char>>) -> bool {
    all_usable(sources) && (filter matches Some(f) ==> usable_pattern(f))
}

/// `error` names the first pattern that cannot be matched with: the input
/// file filter, or else the first such source pattern.
pub open spec fn select_failure(
    sources: Seq<Seq<char>>,
    filter: Option<Seq<char>>,
    error: SelectError,
) -> bool {
    match error {
        SelectError::InvalidInputFilter => filter matches Some(f) && !usable_pattern(f),
        SelectError::InvalidSource(k) => {
            &&& filter matches Some(f) ==> usable_pattern(f)
            &&& k < sources.len()
            &&& !usable_pattern(sources[k as int])
            &&& all_usable(sources.take(k as int))
        },
    }
}

/// Where files cannot be selected, only one error says why; where they can,
/// none does.
pub proof fn lemma_select_failure_unique(
    sources: Seq<Seq<char>>,
    filter: Option<Seq<char>>,
    a: SelectError,
    b: SelectError,
)
    requires
        select_failure(sources, filter, a),
        select_failure(sources, filter, b),
    ensures
        a == b,
        !selectable(sources, filter),
{
    if let SelectError::InvalidSource(k) = a {
        if let SelectError::InvalidSource(m) = b {
            if k < m {
                assert(sources.take(m as int)[k as int] == sources[k as int]);
            }
            if m < k {
                assert(sources.take(k as int)[m as int] == sources[m as int]);
            }
        }
    }
}

/// Finds the first pattern of `patterns` that cannot be matched with.
fn first_unusable(patterns: &Vec<String>) -> (found: Option<usize>)
    ensures
        match found {
            Some(k) => k < patterns.len() && !usable_pattern(patterns@[k as int]@) && all_usable(
                texts(patterns@).take(k as int),
            ),
            None => all_usable(texts(patterns@)),
        },
{
    let mut k: usize = 0;
    while k < patterns.len()
        invariant
            k <= patterns.len(),
            all_usable(texts(patterns@).take(k as int)),
        decreases patterns.len() - k,
    {
        if !check_pattern(patterns[k].as_str()) {
            return Some(k);
        }
        assert forall|j: int| 0 <= j < k + 1 implies usable_pattern(
            #[trigger] texts(patterns@).take(k + 1)[j],
        ) by {
            if j < k {
                assert(texts(patterns@).take(k as int)[j] == texts(patterns@).take(k + 1)[j]);
            }
        }
        k += 1;
    }
    assert(texts(patterns@).take(patterns.len() as int) =~= texts(patterns@));
    None
}

/// Tells whether some pattern of `patterns` matches `path`, or there is no
/// pattern.
fn accepts(patterns: &Vec<String>, path: &str) -> (yes: bool)
    requires
        all_usable(texts(patterns@)),
        is_portable(path@),
    ensures
        yes == accepted_by(texts(patterns@), path@),
{
    if patterns.len() == 0 {
        return true;
    }
    let mut k: usize = 0;
    while k < patterns.len()
        invariant
            k <= patterns.len(),
            patterns.len() > 0,
            all_usable(texts(patterns@)),
            is_portable(path@),
            forall|j: int| 0 <= j < k ==> !glob_matches(#[trigger] texts(patterns@)[j], path@),
        decreases patterns.len() - k,
    {
        assert(usable_pattern(texts(patterns@)[k as int]));
        if glob_match(patterns[k].as_str(), path) {
            assert(glob_matches(texts(patterns@)[k as int], path@));
            return true;
        }
        k += 1;
    }
    false
}

impl ProcessCtx {
    /// Tells whether `url` is one of the input files.
    pub fn has_input_file(&self, url: &SourceLocation) -> (found: bool)
        ensures
            found == self@.files.contains(url@),
    {
        let mut i: usize = 0;
        while i < self.files.len()
            invariant
                i <= self.files.len(),
                forall|j: int| 0 <= j < i ==> self@.files[j] != url@,
            decreases self.files.len() - i,
        {
            if self.files[i].same_as(url) {
                assert(self@.files[i as int] == url@);
                return true;
            }
            i += 1;
        }
        false
    }

    /// Matches `glob_pattern` against the path of every input file.
    fn match_paths(&self, glob_pattern: &str) -> (hits: Vec<bool>)
        requires
            usable_pattern(glob_pattern@),
        ensures
            hits.len() == self.files.len(),
            forall|i: int|
                0 <= i < hits.len() ==> hits@[i] == glob_matches(
                    glob_pattern@,
                    #[trigger] self@.files[i].path,
                ),
    {
        let mut hits: Vec<bool> = Vec::new();
        let mut i: usize = 0;
        while i < self.files.len()
            invariant
                i <= self.files.len(),
                hits.len() == i,
                usable_pattern(glob_pattern@),
                forall|j: int|
                    0 <= j < i ==> hits@[j] == glob_matches(
                        glob_pattern@,
                        #[trigger] self@.files[j].path,
                    ),
            decreases self.files.len() - i,
        {
            assert(self@.files[i as int].path == self.files[i as int]@.path);
            hits.push(glob_match(glob_pattern, self.files[i].path()));
            i += 1;
        }
        hits
    }

    /// The place of the first input file whose path `glob_pattern` matches.
    pub fn find_file_index(&self, glob_pattern: &str) -> (found: Option<usize>)
        requires
            usable_pattern(glob_pattern@),
        ensures
            match found {
                Some(i) => is_first_match(self@.files, glob_pattern@, i as int),
                None => no_match(self@.files, glob_pattern@),
            },
    {
        let hits = self.match_paths(glob_pattern);
        first_marked(&hits)
    }

    /// The first input file whose path `glob_pattern` matches, in the order
    /// of the source set.
    pub fn find_file(&self, glob_pattern: &str) -> (found: Option<&SourceLocation>)
        requires
            usable_pattern(glob_pattern@),
        ensures
            match found {
                Some(file) => exists|i: int|
                    is_first_match(self@.files, glob_pattern@, i) && *file == self.files[i],
                None => no_match(self@.files, glob_pattern@),
            },
    {
        match self.find_file_index(glob_pattern) {
            Some(i) => Some(&self.files[i]),
            None => None,
        }
    }

    /// The same lookup for any pattern whatever: a pattern that cannot be
    /// matched with, and one that matches no file, each give their own
    /// failure.
    pub fn find_file_res(&self, glob_pattern: &str) -> (found: Result<
        &SourceLocation,
        FindFileError,
    >)
        ensures
            match found {
                Ok(file) => usable_pattern(glob_pattern@) && exists|i: int|
                    is_first_match(self@.files, glob_pattern@, i) && *file == self.files[i],
                Err(FindFileError::InvalidPattern { pattern }) => !usable_pattern(glob_pattern@)
                    && pattern@ == glob_pattern@,
                Err(FindFileError::NoMatch { pattern }) => usable_pattern(glob_pattern@)
                    && no_match(self@.files, glob_pattern@) && pattern@ == glob_pattern@,
            },
    {
        if !check_pattern(glob_pattern) {
            return Err(FindFileError::InvalidPattern { pattern: String::from_str(glob_pattern) });
        }
        match self.find_file(glob_pattern) {
            Some(file) => Ok(file),
            None => Err(FindFileError::NoMatch { pattern: String::from_str(glob_pattern) }),
        }
    }

    /// The places of the input files that a pipeline with the source
    /// patterns `sources` takes and that have the extension `extension`,
    /// where one is asked for.
    fn select_where(&self, sources: &Vec<String>, extension: Option<&str>) -> (picked: Result<
        Vec<usize>,
        SelectError,
    >)
        ensures
            match picked {
                Ok(places) => selectable(texts(sources@), self@.input_file_filter)
                    && lists_exactly(
                    places@,
                    self@.files.len() as int,
                    selection(
                        self@,
                        texts(sources@),
                        match extension {
                            Some(e) => Some(e@),
                            None => None,
                        },
                    ),
                ),
                Err(error) => select_failure(texts(sources@), self@.input_file_filter, error),
            },
    {
        if let Some(filter) = &self.input_file_filter {
            if !check_pattern(filter.as_str()) {
                return Err(SelectError::InvalidInputFilter);
            }
        }
        if let Some(k) = first_unusable(sources) {
            return Err(SelectError::InvalidSource(k));
        }
        let ghost keep = selection(
            self@,
            texts(sources@),
            match extension {
                Some(e) => Some(e@),
                None => None,
            },
        );
        let mut marks: Vec<bool> = Vec::new();
        let mut i: usize = 0;
        while i < self.files.len()
            invariant
                i <= self.files.len(),
                marks.len() == i,
                selectable(texts(sources@), self@.input_file_filter),
                keep == selection(
                    self@,
                    texts(sources@),
                    match extension {
                        Some(e) => Some(e@),
                        None => None,
                    },
                ),
                forall|j: int| 0 <= j < i ==> marks@[j] == keep(j),
            decreases self.files.len() - i,
        {
            let file = &self.files[i];
            let path = file.path();
            assert(self@.files[i as int] == file@);
            let wanted = match extension {
                Some(e) => match file.extension() {
                    Some(own) => own == String::from_str(e),
                    None => false,
                },
                None => true,
            };
            let taken = wanted && accepts(sources, path) && match &self.input_file_filter {
                Some(filter) => glob_match(filter.as_str(), path),
                None => true,
            };
            assert(taken == keep(i as int));
            marks.push(taken);
            i += 1;
        }
        let places = marked_places(&marks);
        proof {
            lemma_lists_exactly_same(places@, marks.len() as int, marked(marks@), keep);
        }
        Ok(places)
    }

    /// The places of the input files that a pipeline with the source
    /// patterns `sources` takes, in the order of the source set. Every
    /// pattern is checked before the first file is looked at.
    pub fn select_files(&self, sources: &Vec<String>) -> (picked: Result<Vec<usize>, SelectError>)
        ensures
            match picked {
                Ok(places) => selectable(texts(sources@), self@.input_file_filter)
                    && lists_exactly(
                    places@,
                    self@.files.len() as int,
                    selection(self@, texts(sources@), None),
                ),
                Err(error) => select_failure(texts(sources@), self@.input_file_filter, error),
            },
    {
        self.select_where(sources, None)
    }

    /// The places of those among them that have the extension `extension`.
    pub fn select_files_by_extension(&self, sources: &Vec<String>, extension: &str) -> (picked:
        Result<Vec<usize>, SelectError>)
        ensures
            match picked {
                Ok(places) => selectable(texts(sources@), self@.input_file_filter)
                    && lists_exactly(
                    places@,
                    self@.files.len() as int,
                    selection(self@, texts(sources@), Some(extension@)),
                ),
                Err(error) => select_failure(texts(sources@), self@.input_file_filter, error),
            },
    {
        self.select_where(sources, Some(extension))
    }
}

} // verus!
