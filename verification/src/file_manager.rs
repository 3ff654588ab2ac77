//! Where an item lives under the root directory, and whether it is
//! already there.

use crate::text::has_prefix;
use crate::types::{CollectionItem, CollectionItemKind, CollectionItemView};
use vstd::prelude::*;
use vstd::string::StringExecFns;

verus! {

/// A location below (and including) the root directory, one name per level.
pub type PathModel = Seq<Seq<char>>;

/// The characters that no directory name may hold.
pub open spec fn is_forbidden(c: char) -> bool {
    c == '/' || c == '<' || c == '>' || c == ':' || c == '|' || c == '?' || c == '*' || c == '"'
        || c == '\\'
}

/// A name with every forbidden character replaced by an underscore.
pub open spec fn sanitized(name: Seq<char>) -> Seq<char> {
    name.map_values(|c: char| if is_forbidden(c) { '_' } else { c })
}

/// The pattern that matches one forbidden character.
pub const FORBIDDEN_CLASS: &'static str = "[/<>:|?*\"\\\\]";

/// What every forbidden character is replaced by.
pub const REPLACEMENT: &'static str = "_";

/// The name of the file that marks a directory as unfinished.
pub const SENTINEL_NAME: &'static str = ".incomplete";

/// What comes before a file's name while the file is being written.
pub const TEMPORARY_PREFIX: &'static str = ".temporary.";

/// Whether a name is one that the library uses for its own files: that of
/// the marker, and every name that begins with the temporary prefix. A
/// download of such a name is written like any other; what is proved of the
/// marker and of files in the way is proved of the downloads of other names.
pub open spec fn is_reserved(name: Seq<char>) -> bool {
    name == SENTINEL_NAME@ || has_prefix(name, TEMPORARY_PREFIX@)
}

/// A file in a directory.
pub open spec fn final_path(directory: PathModel, filename: Seq<char>) -> PathModel {
    directory.push(filename)
}

/// Where a file is written before it takes its place.
pub open spec fn temporary_path(directory: PathModel, filename: Seq<char>) -> PathModel {
    directory.push(TEMPORARY_PREFIX@ + filename)
}

/// The file that marks a directory as unfinished.
pub open spec fn sentinel_path(directory: PathModel) -> PathModel {
    directory.push(SENTINEL_NAME@)
}

/// The directory of an album: below the root the artist, below the artist
/// the title, both sanitised.
pub open spec fn album_directory(root: Seq<char>, artist: Seq<char>, title: Seq<char>) -> PathModel {
    seq![root, sanitized(artist), sanitized(title)]
}

/// The directory of a track: the sanitised artist below the root.
pub open spec fn track_directory(root: Seq<char>, artist: Seq<char>) -> PathModel {
    seq![root, sanitized(artist)]
}

/// The directory that holds an item's files.
pub open spec fn item_directory(root: Seq<char>, item: CollectionItemView) -> PathModel {
    match item.itype {
        CollectionItemKind::Album => album_directory(root, item.artist, item.title),
        CollectionItemKind::Track => track_directory(root, item.artist),
    }
}

/// What was found on disk at an item's directory.
#[derive(Clone, Copy, Debug, PartialEq, Eq, Structural)]
pub struct DirectoryState {
    /// The directory is there.
    pub exists: bool,
    /// It holds the file that marks it as unfinished.
    pub has_sentinel: bool,
    /// It holds at least one entry.
    pub has_entries: bool,
}

/// Whether a snapshot shows a finished directory: present, unmarked and
/// not empty.
pub open spec fn directory_complete(state: DirectoryState) -> bool {
    state.exists && !state.has_sentinel && state.has_entries
}

/// Whether an item as a whole counts as downloaded. A track never does: its
/// files are judged one by one.
pub open spec fn item_complete(kind: CollectionItemKind, state: DirectoryState) -> bool {
    match kind {
        CollectionItemKind::Album => directory_complete(state),
        CollectionItemKind::Track => false,
    }
}

/// Whether one file of an item counts as downloaded.
pub open spec fn file_complete(
    kind: CollectionItemKind,
    state: DirectoryState,
    file_exists: bool,
) -> bool {
    match kind {
        CollectionItemKind::Album => directory_complete(state),
        CollectionItemKind::Track => file_exists,
    }
}

/// A file is written in the directory in which it ends up, and no two
/// files of different names are written under one temporary name.
pub proof fn lemma_staging_beside_target(
    directory: PathModel,
    filename: Seq<char>,
    other: Seq<char>,
)
    ensures
        temporary_path(directory, filename).drop_last() == directory,
        final_path(directory, filename).drop_last() == directory,
        temporary_path(directory, filename) == temporary_path(directory, other) ==> filename
            == other,
        final_path(directory, filename) == final_path(directory, other) ==> filename == other,
{
    assert(temporary_path(directory, filename).drop_last() =~= directory);
    assert(final_path(directory, filename).drop_last() =~= directory);
    if temporary_path(directory, filename) == temporary_path(directory, other) {
        let staged = TEMPORARY_PREFIX@ + filename;
        let twin = TEMPORARY_PREFIX@ + other;
        assert(temporary_path(directory, filename).last() == staged);
        assert(temporary_path(directory, other).last() == twin);
        assert(staged.skip(TEMPORARY_PREFIX@.len() as int) =~= filename);
        assert(twin.skip(TEMPORARY_PREFIX@.len() as int) =~= other);
    }
    if final_path(directory, filename) == final_path(directory, other) {
        assert(final_path(directory, filename).last() == filename);
        assert(final_path(directory, other).last() == other);
    }
}

/// Whether sanitising turns a character into an underscore, or leaves it
/// one.
pub open spec fn is_masked(c: char) -> bool {
    is_forbidden(c) || c == '_'
}

/// Sanitising keeps the length of a name, leaves no forbidden character in
/// it, puts an underscore where one stood, and changes no other character.
pub proof fn lemma_sanitized_characters(name: Seq<char>)
    ensures
        sanitized(name).len() == name.len(),
        forall|i: int| 0 <= i < name.len() ==> !is_forbidden(#[trigger] sanitized(name)[i]),
        forall|i: int|
            0 <= i < name.len() && is_forbidden(name[i]) ==> #[trigger] sanitized(name)[i] == '_',
        forall|i: int|
            0 <= i < name.len() && !is_forbidden(name[i]) ==> #[trigger] sanitized(name)[i]
                == name[i],
{
}

/// Sanitising a name twice gives what sanitising it once gives.
pub proof fn lemma_sanitized_idempotent(name: Seq<char>)
    ensures
        sanitized(sanitized(name)) == sanitized(name),
{
    assert(sanitized(sanitized(name)) =~= sanitized(name));
}

/// Two names are sanitised to the same name exactly where they have the
/// same length and, wherever they differ, both hold a forbidden character or
/// an underscore. So names that differ anywhere else never share a
/// directory.
pub proof fn lemma_sanitized_collision(left: Seq<char>, right: Seq<char>)
    ensures
        sanitized(left) == sanitized(right) <==> left.len() == right.len() && forall|i: int|
            0 <= i < left.len() ==> #[trigger] left[i] == right[i] || (is_masked(left[i])
                && is_masked(right[i])),
{
    if sanitized(left) == sanitized(right) {
        assert(left.len() == sanitized(left).len());
        assert(right.len() == sanitized(right).len());
        assert forall|i: int| 0 <= i < left.len() implies #[trigger] left[i] == right[i] || (
        is_masked(left[i]) && is_masked(right[i])) by {
            assert(sanitized(left)[i] == sanitized(right)[i]);
        }
    }
    if left.len() == right.len() && forall|i: int|
        0 <= i < left.len() ==> #[trigger] left[i] == right[i] || (is_masked(left[i]) && is_masked(
            right[i],
        )) {
        assert forall|i: int| 0 <= i < left.len() implies sanitized(left)[i] == sanitized(
            right,
        )[i] by {
            assert(left[i] == right[i] || (is_masked(left[i]) && is_masked(right[i])));
        }
        assert(sanitized(left) =~= sanitized(right));
    }
}

/// Two albums under one root share a directory exactly where their artists
/// are sanitised to the same name and their titles are.
pub proof fn lemma_album_directory_collision(
    root: Seq<char>,
    artist: Seq<char>,
    title: Seq<char>,
    other_artist: Seq<char>,
    other_title: Seq<char>,
)
    ensures
        album_directory(root, artist, title) == album_directory(root, other_artist, other_title)
            <==> sanitized(artist) == sanitized(other_artist) && sanitized(title) == sanitized(
            other_title,
        ),
{
    let one = album_directory(root, artist, title);
    let other = album_directory(root, other_artist, other_title);
    if one == other {
        assert(one[1] == other[1]);
        assert(one[2] == other[2]);
    }
}

/// `regex::Regex::new` and `regex::Regex::replace_all`, for the pattern that
/// is a class of nine single characters and the replacement `_`: every match
/// is one character of the class, so the result is the text with each such
/// character replaced.
#[verifier::external_body]
fn replace_forbidden(pattern: &str, text: &str, replacement: &str) -> (clean: String)
    requires
        pattern@ == FORBIDDEN_CLASS@,
        replacement@ == REPLACEMENT@,
    ensures
        clean@ == sanitized(text@),
{
    regex::Regex::new(pattern).unwrap().replace_all(text, replacement).into_owned()
}

/// Replaces every forbidden character of a name by an underscore.
pub fn sanitize(name: &str) -> (clean: String)
    ensures
        clean@ == sanitized(name@),
{
    replace_forbidden(FORBIDDEN_CLASS, name, REPLACEMENT)
}

/// Whether what was found at a directory shows it finished: present,
/// unmarked and not empty.
pub fn is_directory_complete(directory: &DirectoryState) -> (done: bool)
    ensures
        done == directory_complete(*directory),
{
    if !directory.exists {
        return false;
    }
    if directory.has_sentinel {
        return false;
    }
    directory.has_entries
}

/// A copy of a path.
pub fn copy_path(path: &Vec<String>) -> (copy: Vec<String>)
    ensures
        copy.deep_view() == path.deep_view(),
{
    let mut copy: Vec<String> = Vec::new();
    let mut i: usize = 0;
    while i < path.len()
        invariant
            i <= path.len(),
            copy.len() == i,
            forall|j: int| 0 <= j < i ==> copy@[j]@ == path@[j]@,
        decreases path.len() - i,
    {
        copy.push(path[i].clone());
        i += 1;
    }
    assert(copy.deep_view() =~= path.deep_view());
    copy
}

/// The path one level below a directory.
pub fn child_path(directory: &Vec<String>, name: String) -> (path: Vec<String>)
    ensures
        path.deep_view() == directory.deep_view().push(name@),
{
    let mut path = copy_path(directory);
    let ghost before = path.deep_view();
    path.push(name);
    assert(path.deep_view() =~= before.push(name@));
    path
}

/// The name under which a file is written before it takes its place.
pub fn temporary_name(filename: &str) -> (name: String)
    ensures
        name@ == TEMPORARY_PREFIX@ + filename@,
{
    String::from_str(TEMPORARY_PREFIX).concat(filename)
}

#[derive(Clone, Debug, PartialEq, Eq)]
/// Knows where the items of a collection live below a root directory.
pub struct FileManager {
    pub root_directory: String,
}

impl FileManager {
    /// The directory of an album.
    pub fn get_album_directory(&self, artist: &str, title: &str) -> (directory: Vec<String>)
        ensures
            directory.deep_view() == album_directory(self.root_directory@, artist@, title@),
    {
        let mut directory: Vec<String> = Vec::new();
        directory.push(self.root_directory.clone());
        directory.push(sanitize(artist));
        directory.push(sanitize(title));
        assert(directory.deep_view() =~= album_directory(self.root_directory@, artist@, title@));
        directory
    }

    /// The directory of a track.
    pub fn get_track_directory(&self, artist: &str) -> (directory: Vec<String>)
        ensures
            directory.deep_view() == track_directory(self.root_directory@, artist@),
    {
        let mut directory: Vec<String> = Vec::new();
        directory.push(self.root_directory.clone());
        directory.push(sanitize(artist));
        assert(directory.deep_view() =~= track_directory(self.root_directory@, artist@));
        directory
    }

    /// The directory that holds an item's files.
    pub fn get_item_directory(&self, collection_item: &CollectionItem) -> (directory: Vec<String>)
        ensures
            directory.deep_view() == item_directory(self.root_directory@, collection_item@),
    {
        match collection_item.itype {
            CollectionItemKind::Album => self.get_album_directory(
                collection_item.artist.as_str(),
                collection_item.title.as_str(),
            ),
            CollectionItemKind::Track => self.get_track_directory(collection_item.artist.as_str()),
        }
    }

    /// Whether the item needs no more work, given what was found at its
    /// directory.
    pub fn is_completed(&self, collection_item: &CollectionItem, directory: &DirectoryState) -> (done:
        bool)
        ensures
            done == item_complete(collection_item.itype, *directory),
    {
        match collection_item.itype {
            CollectionItemKind::Album => is_directory_complete(directory),
            CollectionItemKind::Track => false,
        }
    }

    /// Whether one file of the item needs no more work, given what was found
    /// at the item's directory and whether the file itself is there.
    pub fn is_completed_file(
        &self,
        collection_item: &CollectionItem,
        directory: &DirectoryState,
        file_exists: bool,
    ) -> (done: bool)
        ensures
            done == file_complete(collection_item.itype, *directory, file_exists),
    {
        match collection_item.itype {
            CollectionItemKind::Album => self.is_completed(collection_item, directory),
            CollectionItemKind::Track => file_exists,
        }
    }

    /// The path of the file that marks the item's directory as unfinished,
    /// where the marker is there and so has to go; `None` where there is
    /// nothing to remove.
    pub fn complete(&self, collection_item: &CollectionItem, sentinel_present: bool) -> (removal:
        Option<Vec<String>>)
        ensures
            match removal {
                Some(path) => sentinel_present && path.deep_view() == sentinel_path(
                    item_directory(self.root_directory@, collection_item@),
                ),
                None => !sentinel_present,
            },
    {
        if sentinel_present {
            let directory = self.get_item_directory(collection_item);
            Some(child_path(&directory, String::from_str(SENTINEL_NAME)))
        } else {
            None
        }
    }

    /// Where a file of the item is written, and where it ends up: both in
    /// the item's directory, the first under the file's name with the
    /// temporary prefix before it.
    pub fn get_filepath(&self, collection_item: &CollectionItem, filename: &str) -> (paths: (
        Vec<String>,
        Vec<String>,
    ))
        ensures
            paths.0.deep_view() == temporary_path(
                item_directory(self.root_directory@, collection_item@),
                filename@,
            ),
            paths.1.deep_view() == final_path(
                item_directory(self.root_directory@, collection_item@),
                filename@,
            ),
    {
        let directory = self.get_item_directory(collection_item);
        (
            child_path(&directory, temporary_name(filename)),
            child_path(&directory, String::from_str(filename)),
        )
    }
}

} // verus!
