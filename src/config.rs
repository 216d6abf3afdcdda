use vstd::prelude::*;

use crate::text::{
    chars_of, lemma_views_push, parse_track_lines, position_of, push_str, rendered_lines, string_of, track_lines, views,
};

verus! {

broadcast use vstd::seq_lib::group_seq_properties;

/// Name of the directory, under the home directory, that holds the track files.
pub const CONFIG_DIR_NAME: &'static str = ".ksound";

/// Name of the file that holds the skipped tracks.
pub const SKIP_FILE_NAME: &'static str = "skipped_tracks.txt";

/// Name of the file that holds the favorite tracks.
pub const FAVORITES_FILE_NAME: &'static str = "favorites_tracks.txt";

/// Why a track set or its file could not be used.
#[derive(Debug, Clone, Copy, PartialEq, Eq, Structural)]
pub enum ConfigError {
    /// No home directory is known for the current user.
    HomeDirNotFound,
    /// The track's path does not resolve to an existing file.
    TrackNotFound,
}

/// `name` placed inside the directory `base`, a separator added where needed.
pub open spec fn joined_path(base: Seq<char>, name: Seq<char>) -> Seq<char> {
    if base.len() == 0 || base.last() == '/' {
        base + name
    } else {
        base + seq!['/'] + name
    }
}

/// The favorites after adding `track` to `entries`: unchanged where it is
/// there already, else appended.
pub open spec fn favorites_with(entries: Seq<Seq<char>>, track: Seq<char>) -> Seq<Seq<char>> {
    if entries.to_set().contains(track) {
        entries
    } else {
        entries.push(track)
    }
}

/// The skipped tracks known in memory after `track` is added to a list with
/// `members`: a list in memory takes it in at once; one not read yet learns of
/// it when its file, with the appended line, is read.
pub open spec fn skipped_after_add(loaded: bool, members: Set<Seq<char>>, track: Seq<char>) -> Set<
    Seq<char>,
> {
    if loaded {
        members.insert(track)
    } else {
        members
    }
}

/// The line that records `track` in a track file.
pub open spec fn entry_line(track: Seq<char>) -> Seq<char> {
    track.push('\n')
}

/// Relies on `dirs::home_dir`: the current user's home directory, if one is known.
#[verifier::external_body]
fn home_dir() -> (r: Option<String>) {
    dirs::home_dir().map(|p| p.to_string_lossy().into_owned())
}

/// The path of `name` inside the directory `base`.
pub fn join_path(base: &str, name: &str) -> (r: String)
    ensures
        r@ == joined_path(base@, name@),
{
    let mut cs = chars_of(base);
    let n = cs.len();
    if n > 0 && cs[n - 1] != '/' {
        cs.push('/');
    }
    let ghost start = cs@;
    push_str(&mut cs, name);
    proof {
        if base@.len() == 0 || base@.last() == '/' {
            assert(start == base@);
        } else {
            assert(start =~= base@ + seq!['/']);
        }
    }
    string_of(cs.as_slice())
}

/// The directory that holds the track files: `.ksound` under the home
/// directory. Fails when no home directory is known.
pub fn config_dir() -> (r: Result<String, ConfigError>)
    ensures
        r is Err ==> r == Err::<String, ConfigError>(ConfigError::HomeDirNotFound),
        r matches Ok(dir) ==> exists|home: Seq<char>|
            dir@ == #[trigger] joined_path(home, CONFIG_DIR_NAME@),
{
    match home_dir() {
        Some(home) => Ok(join_path(home.as_str(), CONFIG_DIR_NAME)),
        None => Err(ConfigError::HomeDirNotFound),
    }
}

/// The text that records `track` in a track file: the path and a line feed.
pub fn track_entry_line(track: &String) -> (r: String)
    ensures
        r@ == entry_line(track@),
{
    let mut cs = chars_of(track.as_str());
    cs.push('\n');
    string_of(cs.as_slice())
}

/// Whether `v` holds a string equal to `s`.
fn holds(v: &Vec<String>, s: &String) -> (r: bool)
    ensures
        r == views(v@).contains(s@),
{
    match position_of(v, s) {
        Some(i) => {
            assert(views(v@)[i as int] == s@);
            true
        },
        None => {
            assert forall|k: int| 0 <= k < views(v@).len() implies views(v@)[k] != s@ by {
                assert(views(v@)[k] == v@[k]@);
            }
            false
        },
    }
}

pub(crate) proof fn lemma_views_remove(v: Seq<String>, i: int)
    requires
        0 <= i < v.len(),
    ensures
        views(v.remove(i)) == views(v).remove(i),
{
    assert(views(v.remove(i)) =~= views(v).remove(i));
}

/// Removing the one occurrence of an item of a sequence without duplicates
/// removes it from the sequence's set, and keeps the sequence without duplicates.
pub(crate) proof fn lemma_remove_unique<A>(s: Seq<A>, i: int)
    requires
        0 <= i < s.len(),
        s.no_duplicates(),
    ensures
        s.remove(i).to_set() == s.to_set().remove(s[i]),
        s.remove(i).no_duplicates(),
{
    let r = s.remove(i);
    assert forall|x: A| r.to_set().contains(x) <==> s.to_set().remove(s[i]).contains(x) by {
        if r.contains(x) {
            let k = choose|k: int| 0 <= k < r.len() && r[k] == x;
            if k < i {
                assert(s[k] == x);
            } else {
                assert(s[k + 1] == x);
            }
        }
        if s.contains(x) && x != s[i] {
            let k = choose|k: int| 0 <= k < s.len() && s[k] == x;
            if k < i {
                assert(r[k] == x);
            } else {
                assert(r[k - 1] == x);
            }
        }
    }
    assert(r.to_set() =~= s.to_set().remove(s[i]));
}

/// The tracks that are never to be played again, mirrored from a file of one
/// canonical path per line. The file is read into memory once, on first use.
pub struct SkipList {
    skip_file_path: String,
    cached_skipped_tracks: Option<Vec<String>>,
}

impl SkipList {
    /// The path of the file that backs this list.
    pub closed spec fn file_path(&self) -> Seq<char> {
        self.skip_file_path@
    }

    /// Whether the file has been read into memory.
    pub closed spec fn loaded(&self) -> bool {
        self.cached_skipped_tracks is Some
    }

    /// The canonical paths of the skipped tracks known in memory.
    pub closed spec fn members(&self) -> Set<Seq<char>> {
        match self.cached_skipped_tracks {
            Some(v) => views(v@).to_set(),
            None => Set::empty(),
        }
    }

    /// A list backed by the file at `skip_file_path`, not read yet.
    pub fn new(skip_file_path: String) -> (r: SkipList)
        ensures
            r.file_path() == skip_file_path@,
            !r.loaded(),
            r.members() == Set::<Seq<char>>::empty(),
    {
        SkipList { skip_file_path, cached_skipped_tracks: None }
    }

    /// The path of the file that backs this list.
    pub fn skip_file_path(&self) -> (r: &String)
        ensures
            r@ == self.file_path(),
    {
        &self.skip_file_path
    }

    pub fn is_loaded(&self) -> (r: bool)
        ensures
            r == self.loaded(),
    {
        self.cached_skipped_tracks.is_some()
    }

    /// Takes the text of the backing file into memory, unless that was done
    /// before: from then on the memory alone answers membership.
    pub fn load_skipped_tracks(&mut self, text: &str)
        ensures
            final(self).file_path() == old(self).file_path(),
            final(self).loaded(),
            old(self).loaded() ==> final(self).members() == old(self).members(),
            !old(self).loaded() ==> final(self).members() == track_lines(text@).to_set(),
    {
        if self.cached_skipped_tracks.is_some() {
            return ;
        }
        let lines = parse_track_lines(text);
        self.cached_skipped_tracks = Some(lines);
    }

    /// Records a track as skipped and returns the line to append to the backing
    /// file. `canonical` is the track's canonical path, `None` where it could not
    /// be resolved: then nothing is recorded. A list not read yet learns of the
    /// track when the file, with the line appended, is read.
    pub fn add(&mut self, canonical: &Option<String>) -> (r: Result<String, ConfigError>)
        ensures
            final(self).file_path() == old(self).file_path(),
            final(self).loaded() == old(self).loaded(),
            match canonical {
                None => {
                    &&& r == Err::<String, ConfigError>(ConfigError::TrackNotFound)
                    &&& final(self).members() == old(self).members()
                },
                Some(c) => {
                    &&& r matches Ok(line) && line@ == entry_line(c@)
                    &&& final(self).members() == skipped_after_add(
                        old(self).loaded(),
                        old(self).members(),
                        c@,
                    )
                },
            },
    {
        match canonical {
            None => Err(ConfigError::TrackNotFound),
            Some(c) => {
                let line = track_entry_line(c);
                match &mut self.cached_skipped_tracks {
                    Some(v) => {
                        let entry = c.clone();
                        proof {
                            lemma_views_push(v@, entry);
                            views(v@).lemma_push_to_set_commute(c@);
                        }
                        v.push(entry);
                    },
                    None => {},
                }
                Ok(line)
            },
        }
    }

    /// Whether the track whose canonical path is `canonical` is skipped. A track
    /// whose path could not be resolved (`None`) is not.
    pub fn is_skipped(&self, canonical: &Option<String>) -> (r: bool)
        ensures
            r == (canonical matches Some(c) && self.members().contains(c@)),
    {
        match canonical {
            None => false,
            Some(c) => match &self.cached_skipped_tracks {
                Some(v) => holds(v, c),
                None => false,
            },
        }
    }
}

/// The tracks marked as favorites, mirrored from a file of one canonical path
/// per line, read in full when the list is made.
pub struct FavoritesList {
    favorites_file_path: String,
    cached_favorites_tracks: Vec<String>,
}

impl FavoritesList {
    /// The path of the file that backs this list.
    pub closed spec fn file_path(&self) -> Seq<char> {
        self.favorites_file_path@
    }

    /// The favorites, in the order in which a rewrite of the file lists them.
    pub closed spec fn entries(&self) -> Seq<Seq<char>> {
        views(self.cached_favorites_tracks@)
    }

    /// The canonical paths of the favorite tracks.
    pub open spec fn members(&self) -> Set<Seq<char>> {
        self.entries().to_set()
    }

    /// Each favorite is listed once.
    pub open spec fn wf(&self) -> bool {
        self.entries().no_duplicates()
    }

    /// A list backed by the file at `favorites_file_path`, whose text is `text`.
    pub fn new(favorites_file_path: String, text: &str) -> (r: FavoritesList)
        ensures
            r.wf(),
            r.file_path() == favorites_file_path@,
            r.members() == track_lines(text@).to_set(),
    {
        let lines = parse_track_lines(text);
        let mut cache: Vec<String> = Vec::new();
        let mut i: usize = 0;
        while i < lines.len()
            invariant
                i <= lines@.len(),
                views(cache@).no_duplicates(),
                views(cache@).to_set() == views(lines@).subrange(0, i as int).to_set(),
            decreases lines@.len() - i,
        {
            let ghost prefix = views(lines@).subrange(0, i as int);
            proof {
                assert(views(lines@).subrange(0, i as int + 1) =~= prefix.push(lines@[i as int]@));
                prefix.lemma_push_to_set_commute(lines@[i as int]@);
            }
            if !holds(&cache, &lines[i]) {
                let entry = lines[i].clone();
                proof {
                    lemma_views_push(cache@, entry);
                    views(cache@).lemma_push_to_set_commute(lines@[i as int]@);
                }
                cache.push(entry);
            } else {
                assert(views(cache@).to_set().contains(lines@[i as int]@));
                assert(views(cache@).to_set().insert(lines@[i as int]@) =~= views(cache@).to_set());
            }
            i = i + 1;
        }
        assert(views(lines@).subrange(0, lines@.len() as int) =~= views(lines@));
        FavoritesList { favorites_file_path, cached_favorites_tracks: cache }
    }

    /// The path of the file that backs this list.
    pub fn favorites_file_path(&self) -> (r: &String)
        ensures
            r@ == self.file_path(),
    {
        &self.favorites_file_path
    }

    /// Marks a track as favorite. `canonical` is the track's canonical path,
    /// `None` where it could not be resolved, which fails. A track that is
    /// already a favorite is left as it is (`Ok(None)`); otherwise the result
    /// holds the line to append to the backing file.
    pub fn add(&mut self, canonical: &Option<String>) -> (r: Result<Option<String>, ConfigError>)
        requires
            old(self).wf(),
        ensures
            final(self).wf(),
            final(self).file_path() == old(self).file_path(),
            match canonical {
                None => {
                    &&& r == Err::<Option<String>, ConfigError>(ConfigError::TrackNotFound)
                    &&& final(self).entries() == old(self).entries()
                },
                Some(c) => {
                    &&& final(self).entries() == favorites_with(old(self).entries(), c@)
                    &&& if old(self).members().contains(c@) {
                        r == Ok::<Option<String>, ConfigError>(None)
                    } else {
                        r matches Ok(Some(line)) && line@ == entry_line(c@)
                    }
                },
            },
    {
        match canonical {
            None => Err(ConfigError::TrackNotFound),
            Some(c) => {
                if holds(&self.cached_favorites_tracks, c) {
                    return Ok(None);
                }
                let line = track_entry_line(c);
                let entry = c.clone();
                proof {
                    lemma_views_push(self.cached_favorites_tracks@, entry);
                }
                self.cached_favorites_tracks.push(entry);
                Ok(Some(line))
            },
        }
    }

    /// Removes a track from the favorites. `canonical` is its canonical path;
    /// where it could not be resolved (`None`) nothing changes and nothing is
    /// returned. Otherwise the result is the new text of the backing file.
    pub fn remove(&mut self, canonical: &Option<String>) -> (r: Option<String>)
        requires
            old(self).wf(),
        ensures
            final(self).wf(),
            final(self).file_path() == old(self).file_path(),
            match canonical {
                None => (r is None) && final(self).entries() == old(self).entries(),
                Some(c) => {
                    &&& final(self).members() == old(self).members().remove(c@)
                    &&& r matches Some(t) && t@ == rendered_lines(final(self).entries())
                },
            },
    {
        match canonical {
            None => None,
            Some(c) => {
                match position_of(&self.cached_favorites_tracks, c) {
                    Some(i) => {
                        proof {
                            lemma_views_remove(self.cached_favorites_tracks@, i as int);
                            lemma_remove_unique(views(self.cached_favorites_tracks@), i as int);
                        }
                        self.cached_favorites_tracks.remove(i);
                    },
                    None => {
                        assert(!self.members().contains(c@)) by {
                            if self.entries().contains(c@) {
                                let k = choose|k: int|
                                    0 <= k < self.entries().len() && self.entries()[k] == c@;
                                assert(self.entries()[k] == self.cached_favorites_tracks@[k]@);
                            }
                        }
                        assert(self.members().remove(c@) =~= self.members());
                    },
                }
                Some(render_tracks(&self.cached_favorites_tracks))
            },
        }
    }

    /// Whether the track whose canonical path is `canonical` is a favorite. A
    /// track whose path could not be resolved (`None`) is not.
    pub fn is_favorite(&self, canonical: &Option<String>) -> (r: bool)
        ensures
            r == (canonical matches Some(c) && self.members().contains(c@)),
    {
        match canonical {
            None => false,
            Some(c) => holds(&self.cached_favorites_tracks, c),
        }
    }
}

/// The text of a track file that lists `tracks`, one per line.
pub fn render_tracks(tracks: &Vec<String>) -> (r: String)
    ensures
        r@ == rendered_lines(views(tracks@)),
{
    let mut cs: Vec<char> = Vec::new();
    let mut i: usize = 0;
    while i < tracks.len()
        invariant
            i <= tracks@.len(),
            cs@ == rendered_lines(views(tracks@).subrange(0, i as int)),
        decreases tracks@.len() - i,
    {
        let ghost base = cs@;
        push_str(&mut cs, tracks[i].as_str());
        cs.push('\n');
        proof {
            let pre = views(tracks@).subrange(0, i as int + 1);
            assert(pre.drop_last() =~= views(tracks@).subrange(0, i as int));
            assert(pre.last() == tracks@[i as int]@);
            assert(cs@ =~= base + tracks@[i as int]@.push('\n'));
        }
        i = i + 1;
    }
    assert(views(tracks@).subrange(0, tracks@.len() as int) =~= views(tracks@));
    string_of(cs.as_slice())
}

} // verus!
