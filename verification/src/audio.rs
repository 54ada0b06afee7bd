//! Finding the audio file of a clip: where to look, in which order, and
//! which file of a directory is taken.
use vstd::prelude::*;
use crate::paths::{extension, path_extension};
use crate::output::{concat, PathKind};
use crate::filename_parts::str_eq;
use crate::filename_handling::strings_view;

verus! {

/// What kind of file is looked for.
#[derive(Debug, Clone, Copy, PartialEq, Eq, Structural)]
pub enum Wanted {
    /// An MP3, WAV or FLAC file.
    Audio,
    /// An MP3 file.
    Mp3,
    /// An MP3 file, with the extension in any mix of ASCII letter case.
    Mp3AnyCase,
}

/// Whether a file with extension `e` is wanted: for audio, the extensions
/// `mp3`, `wav` and `flac`; for MP3, `mp3`; case matters but for the last
/// kind, which compares ASCII letters without regard to case.
pub open spec fn wanted_extension(w: Wanted, e: Option<Seq<char>>) -> bool {
    match e {
        None => false,
        Some(x) => match w {
            Wanted::Audio => x == "mp3"@ || x == "wav"@ || x == "flac"@,
            Wanted::Mp3 => x == "mp3"@,
            Wanted::Mp3AnyCase => x.len() == 3 && (x[0] == 'm' || x[0] == 'M') && (x[1] == 'p' || x[1] == 'P')
                && x[2] == '3',
        },
    }
}

/// What the file system shows at a path: what it is, and for a directory
/// the paths of its entries that could be read, in the order the directory
/// lists them, or `None` when the directory could not be read.
#[derive(Debug)]
pub struct PathState {
    pub kind: PathKind,
    pub entries: Option<Vec<String>>,
}

/// The index of the first wanted path in `entries`.
pub open spec fn first_wanted(w: Wanted, entries: Seq<Seq<char>>) -> Option<int>
    decreases entries.len(),
{
    if entries.len() == 0 {
        None
    } else if wanted_extension(w, path_extension(entries[0])) {
        Some(0)
    } else {
        match first_wanted(w, entries.drop_first()) {
            Some(i) => Some(i + 1),
            None => None,
        }
    }
}

/// The entries of a directory listing, as character sequences.
pub open spec fn listing_view(entries: Option<Vec<String>>) -> Option<Seq<Seq<char>>> {
    match entries {
        Some(v) => Some(strings_view(v@)),
        None => None,
    }
}

/// What looking for a wanted file at `path` finds: the file itself, when
/// it is a file with a wanted extension; the first wanted entry, when it
/// is a directory; else the reason there is none.
pub open spec fn find_spec(w: Wanted, path: Seq<char>, kind: PathKind, entries: Option<Seq<Seq<char>>>) -> Result<Seq<char>, Seq<char>> {
    match kind {
        PathKind::File => if wanted_extension(w, path_extension(path)) {
            Ok(path)
        } else {
            Err(match w {
                Wanted::Audio => "The specified file is not a supported audio file: "@ + path,
                _ => "The specified path is a file but not an MP3: "@ + path,
            })
        },
        PathKind::Directory => match entries {
            None => Err("Failed to read directory: "@ + path),
            Some(es) => match first_wanted(w, es) {
                Some(i) => Ok(es[i]),
                None => Err(match w {
                    Wanted::Audio => "No supported audio file found in directory: "@ + path,
                    _ => "No MP3 file found in directory: "@ + path,
                }),
            },
        },
        _ => Err("Path does not exist or is not accessible: "@ + path),
    }
}

/// Whether the path `p` has a wanted extension.
fn has_wanted_extension(w: Wanted, p: &str) -> (r: bool)
    ensures
        r == wanted_extension(w, path_extension(p@)),
{
    match extension(p) {
        None => false,
        Some(e) => match w {
            Wanted::Audio => str_eq(e.as_str(), "mp3") || str_eq(e.as_str(), "wav") || str_eq(e.as_str(), "flac"),
            Wanted::Mp3 => str_eq(e.as_str(), "mp3"),
            Wanted::Mp3AnyCase => {
                let cs = crate::text::chars_of(e.as_str());
                cs.len() == 3 && (cs[0] == 'm' || cs[0] == 'M') && (cs[1] == 'p' || cs[1] == 'P') && cs[2] == '3'
            },
        },
    }
}

/// The first wanted path of `entries`.
fn find_first_wanted(w: Wanted, entries: &Vec<String>) -> (r: Option<usize>)
    ensures
        match r {
            Some(i) => first_wanted(w, strings_view(entries@)) == Some(i as int) && i < entries@.len(),
            None => first_wanted(w, strings_view(entries@)) is None,
        },
{
    let ghost es = strings_view(entries@);
    let mut i: usize = 0;
    assert(es.skip(0) =~= es);
    while i < entries.len()
        invariant
            i <= entries@.len(),
            es == strings_view(entries@),
            first_wanted(w, es) == match first_wanted(w, es.skip(i as int)) {
                Some(j) => Some(j + i),
                None => None,
            },
        decreases entries@.len() - i,
    {
        assert(es.skip(i as int)[0] == es[i as int]);
        assert(es.skip(i as int).drop_first() =~= es.skip(i + 1));
        if has_wanted_extension(w, entries[i].as_str()) {
            return Some(i);
        }
        i = i + 1;
    }
    assert(es.skip(i as int).len() == 0);
    None
}

/// Looks for a wanted file at `path`, given what the file system shows
/// there.
pub fn find_wanted_file(w: Wanted, path: &str, state: &PathState) -> (r: Result<String, String>)
    ensures
        match find_spec(w, path@, state.kind, listing_view(state.entries)) {
            Ok(p) => r matches Ok(s) && s@ == p,
            Err(m) => r matches Err(s) && s@ == m,
        },
{
    match state.kind {
        PathKind::File => {
            if has_wanted_extension(w, path) {
                Ok(String::from_str(path))
            } else {
                match w {
                    Wanted::Audio => Err(concat("The specified file is not a supported audio file: ", path)),
                    _ => Err(concat("The specified path is a file but not an MP3: ", path)),
                }
            }
        },
        PathKind::Directory => match &state.entries {
            None => Err(concat("Failed to read directory: ", path)),
            Some(es) => match find_first_wanted(w, es) {
                Some(i) => Ok(es[i].clone()),
                None => match w {
                    Wanted::Audio => Err(concat("No supported audio file found in directory: ", path)),
                    _ => Err(concat("No MP3 file found in directory: ", path)),
                },
            },
        },
        _ => Err(concat("Path does not exist or is not accessible: ", path)),
    }
}

/// A path seen as a file or a directory.
#[derive(Debug)]
pub enum PathType {
    File(String),
    Directory(String),
}

impl PathType {
    /// The path as a file or a directory; a path that is neither is
    /// refused.
    pub fn from_path(path: &str, kind: PathKind) -> (r: Result<PathType, String>)
        ensures
            kind == PathKind::File ==> (r matches Ok(PathType::File(p)) && p@ == path@),
            kind == PathKind::Directory ==> (r matches Ok(PathType::Directory(p)) && p@ == path@),
            kind != PathKind::File && kind != PathKind::Directory ==> (r matches Err(m)
                && m@ == "Path does not exist or is not accessible: "@ + path@),
    {
        match kind {
            PathKind::File => Ok(PathType::File(String::from_str(path))),
            PathKind::Directory => Ok(PathType::Directory(String::from_str(path))),
            _ => Err(concat("Path does not exist or is not accessible: ", path)),
        }
    }

    /// The supported audio file this path stands for: the file itself when
    /// it has an audio extension, or the first audio entry of the directory
    /// (`entries` as in `PathState`).
    pub fn find_audio(self, entries: Option<Vec<String>>) -> (r: Result<String, String>)
        ensures
            match self {
                PathType::File(p) => match find_spec(Wanted::Audio, p@, PathKind::File, listing_view(entries)) {
                    Ok(x) => r matches Ok(s) && s@ == x,
                    Err(m) => r matches Err(s) && s@ == m,
                },
                PathType::Directory(p) => match find_spec(Wanted::Audio, p@, PathKind::Directory, listing_view(entries)) {
                    Ok(x) => r matches Ok(s) && s@ == x,
                    Err(m) => r matches Err(s) && s@ == m,
                },
            },
    {
        match self {
            PathType::File(p) => find_wanted_file(Wanted::Audio, p.as_str(), &PathState { kind: PathKind::File, entries }),
            PathType::Directory(p) => find_wanted_file(
                Wanted::Audio,
                p.as_str(),
                &PathState { kind: PathKind::Directory, entries },
            ),
        }
    }
}

/// Looks for a supported audio file at `path_or_dir`.
pub fn find_audio_file(path_or_dir: &str, state: PathState) -> (r: Result<String, String>)
    ensures
        match find_spec(Wanted::Audio, path_or_dir@, state.kind, listing_view(state.entries)) {
            Ok(p) => r matches Ok(s) && s@ == p,
            Err(m) => r matches Err(s) && s@ == m,
        },
{
    match PathType::from_path(path_or_dir, state.kind) {
        Ok(t) => t.find_audio(state.entries),
        Err(m) => Err(m),
    }
}

/// Looks for an MP3 file at `path_or_dir`.
pub fn find_mp3_file(path_or_dir: &str, state: &PathState) -> (r: Result<String, String>)
    ensures
        match find_spec(Wanted::Mp3, path_or_dir@, state.kind, listing_view(state.entries)) {
            Ok(p) => r matches Ok(s) && s@ == p,
            Err(m) => r matches Err(s) && s@ == m,
        },
{
    find_wanted_file(Wanted::Mp3, path_or_dir, state)
}

/// Where the audio comes from.
#[derive(Debug)]
pub enum AudioSource {
    /// A file or directory given on the command line.
    CliArgument(String),
    /// The directory named by the environment.
    SearchInExportPath(String),
    /// The path of the configuration file.
    FromConfigFile(String),
}

/// The source of the audio: the command line first, then the environment,
/// then the configuration; none when none of them names one.
pub fn select_audio_source(cli: Option<String>, env_dir: Option<String>, config_path: Option<String>) -> (r: Option<AudioSource>)
    ensures
        match (cli, env_dir, config_path) {
            (Some(c), _, _) => r matches Some(AudioSource::CliArgument(p)) && p@ == c@,
            (None, Some(e), _) => r matches Some(AudioSource::SearchInExportPath(p)) && p@ == e@,
            (None, None, Some(f)) => r matches Some(AudioSource::FromConfigFile(p)) && p@ == f@,
            (None, None, None) => r is None,
        },
{
    match cli {
        Some(c) => Some(AudioSource::CliArgument(c)),
        None => match env_dir {
            Some(e) => Some(AudioSource::SearchInExportPath(e)),
            None => match config_path {
                Some(f) => Some(AudioSource::FromConfigFile(f)),
                None => None,
            },
        },
    }
}

/// The file found for `source`, looking for wanted files: at the source's
/// own path, and, when the search of the environment's directory finds
/// nothing, at the configured path if there is one. `found` is what the
/// search at the source's path gives, `found_in_config` what the search at
/// the configured path gives.
pub open spec fn resolved(
    source_is_export: bool,
    config_path: Option<Seq<char>>,
    found: Result<Seq<char>, Seq<char>>,
    found_in_config: Result<Seq<char>, Seq<char>>,
) -> Option<Seq<char>> {
    match found {
        Ok(p) => Some(p),
        Err(_) => if source_is_export && config_path is Some {
            match found_in_config {
                Ok(p) => Some(p),
                Err(_) => None,
            }
        } else {
            None
        },
    }
}

/// The path of `source`.
pub open spec fn source_path(source: AudioSource) -> Seq<char> {
    match source {
        AudioSource::CliArgument(p) => p@,
        AudioSource::SearchInExportPath(p) => p@,
        AudioSource::FromConfigFile(p) => p@,
    }
}

/// Resolves the file of `source`, looking for `w`. `source_state` is what
/// the file system shows at the source's path and `config_state` what it
/// shows at `config_path`. The configured path is a fallback for the
/// environment's directory only; every failure ends in `None`.
pub fn resolve_wanted_path(
    w: Wanted,
    source: AudioSource,
    config_path: Option<String>,
    source_state: &PathState,
    config_state: &PathState,
) -> (r: Option<String>)
    ensures
        crate::output::opt_view(r) == resolved(
            source is SearchInExportPath,
            crate::output::opt_view(config_path),
            find_spec(w, source_path(source), source_state.kind, listing_view(source_state.entries)),
            find_spec(
                w,
                match config_path { Some(c) => c@, None => Seq::empty() },
                config_state.kind,
                listing_view(config_state.entries),
            ),
        ),
{
    let is_export = match &source {
        AudioSource::SearchInExportPath(_) => true,
        _ => false,
    };
    let path = match source {
        AudioSource::CliArgument(p) => p,
        AudioSource::SearchInExportPath(p) => p,
        AudioSource::FromConfigFile(p) => p,
    };
    match find_wanted_file(w, path.as_str(), source_state) {
        Ok(p) => Some(p),
        Err(_) => {
            if is_export {
                match config_path {
                    Some(c) => match find_wanted_file(w, c.as_str(), config_state) {
                        Ok(p) => Some(p),
                        Err(_) => None,
                    },
                    None => None,
                }
            } else {
                None
            }
        },
    }
}

/// Resolves the audio file of `source` (MP3, WAV or FLAC).
pub fn resolve_audio_path(
    source: AudioSource,
    config_path: Option<String>,
    source_state: &PathState,
    config_state: &PathState,
) -> (r: Option<String>)
    ensures
        crate::output::opt_view(r) == resolved(
            source is SearchInExportPath,
            crate::output::opt_view(config_path),
            find_spec(Wanted::Audio, source_path(source), source_state.kind, listing_view(source_state.entries)),
            find_spec(
                Wanted::Audio,
                match config_path { Some(c) => c@, None => Seq::empty() },
                config_state.kind,
                listing_view(config_state.entries),
            ),
        ),
{
    resolve_wanted_path(Wanted::Audio, source, config_path, source_state, config_state)
}

/// Resolves the MP3 file of `source`.
pub fn resolve_mp3_path(
    source: AudioSource,
    config_path: Option<String>,
    source_state: &PathState,
    config_state: &PathState,
) -> (r: Option<String>)
    ensures
        crate::output::opt_view(r) == resolved(
            source is SearchInExportPath,
            crate::output::opt_view(config_path),
            find_spec(Wanted::Mp3, source_path(source), source_state.kind, listing_view(source_state.entries)),
            find_spec(
                Wanted::Mp3,
                match config_path { Some(c) => c@, None => Seq::empty() },
                config_state.kind,
                listing_view(config_state.entries),
            ),
        ),
{
    resolve_wanted_path(Wanted::Mp3, source, config_path, source_state, config_state)
}

} // verus!
