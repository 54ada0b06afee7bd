//! Mapping image files to frame numbers, and the plan for loading the images
//! of a directory: which files are renamed into shape and which frame number
//! each file carries.
use vstd::prelude::*;
use std::collections::BTreeMap;
use crate::text::{all_ascii, decimal, is_digit, parse_unsigned, parse_unsigned_str, zero_pad, zero_padded_decimal};
use crate::paths::{extension, file_stem, path_eq, path_extension, path_file_stem, path_with_file_name, with_file_name};
use crate::output::concat;
use crate::modes::Modes;
use crate::filename_parts::{
    filename_from_parts, normalized_suffix, path_prefix, split_error_message, split_filename,
    FilenameParts, ImageMappingError, MappingErrorView,
};

verus! {

broadcast use vstd::std_specs::btree::group_btree_axioms;

/// What the `regex` crate returns as the text of the first capture group of
/// the leftmost-first match of `pattern` in `haystack`.
pub uninterp spec fn regex_first_capture(pattern: Seq<char>, haystack: Seq<char>) -> Option<Seq<char>>;

/// The pattern that finds a frame number: an underscore followed by digits,
/// the digits captured.
pub open spec fn number_pattern() -> Seq<char> {
    seq!['_', '(', '\\', 'd', '+', ')']
}

/// The end of the run of ASCII digits of `s` that starts at `j`.
pub open spec fn digit_run_end(s: Seq<char>, j: int) -> int
    decreases s.len() - j,
{
    if 0 <= j < s.len() && is_digit(s[j]) {
        digit_run_end(s, j + 1)
    } else {
        j
    }
}

/// The digits after the first underscore of `s`, at or after index `i`,
/// that is followed by an ASCII digit.
pub open spec fn underscore_digits_from(s: Seq<char>, i: int) -> Option<Seq<char>>
    decreases s.len() - i,
{
    if i < 0 || i + 1 >= s.len() {
        None
    } else if s[i] == '_' && is_digit(s[i + 1]) {
        Some(s.subrange(i + 1, digit_run_end(s, i + 1)))
    } else {
        underscore_digits_from(s, i + 1)
    }
}

/// Calls `Regex::new` and `Regex::captures` of the `regex` crate and takes
/// the first capture group. The contract names the result; for the pattern
/// `_(\d+)` on ASCII text it states it: the crate's `\d` is the Unicode
/// class `Nd`, whose ASCII members are `0`..`9`, and a search reports the
/// leftmost match with greedy repetition. What `\d` matches beyond ASCII is
/// not stated.
#[verifier::external_body]
fn regex_first_group(pattern: &str, haystack: &str) -> (r: Option<String>)
    ensures
        r is Some == regex_first_capture(pattern@, haystack@) is Some,
        r matches Some(s) ==> s@ == regex_first_capture(pattern@, haystack@)->0,
        pattern@ == number_pattern() && all_ascii(haystack@) ==> match r {
            Some(s) => underscore_digits_from(haystack@, 0) == Some(s@),
            None => underscore_digits_from(haystack@, 0) is None,
        },
{
    let re = regex::Regex::new(pattern).ok()?;
    re.captures(haystack)?.get(1).map(|m| m.as_str().to_string())
}

/// The frame number a file name carries: the digits after the first
/// underscore that is followed by digits, read as a `u32`.
pub open spec fn number_in_name(name: Seq<char>) -> Option<u32> {
    match regex_first_capture(number_pattern(), name) {
        Some(c) => match parse_unsigned(c, 0xffff_ffff) {
            Some(v) => Some(v as u32),
            None => None,
        },
        None => None,
    }
}

/// The frame number an ASCII file name carries, stated directly: the
/// digits after the first underscore that is followed by a digit, read as a
/// `u32` when they fit.
pub open spec fn ascii_number_in_name(name: Seq<char>) -> Option<u32> {
    match underscore_digits_from(name, 0) {
        Some(c) => match parse_unsigned(c, 0xffff_ffff) {
            Some(v) => Some(v as u32),
            None => None,
        },
        None => None,
    }
}

/// Whether a file has a stem made of ASCII characters.
pub open spec fn ascii_stem(file: Seq<char>) -> bool {
    path_file_stem(file) matches Some(stem) && all_ascii(stem)
}

/// The frame number of a file with an ASCII stem, stated directly.
pub open spec fn ascii_file_number(file: Seq<char>) -> Option<u32> {
    match path_file_stem(file) {
        Some(stem) => ascii_number_in_name(stem),
        None => None,
    }
}

/// The frame number of a file: the number its file stem carries.
pub open spec fn file_number(file: Seq<char>) -> Option<u32> {
    match path_file_stem(file) {
        Some(stem) => number_in_name(stem),
        None => None,
    }
}

/// The extension of a path, or nothing when it has none.
pub open spec fn extension_or_empty(file: Seq<char>) -> Seq<char> {
    match path_extension(file) {
        Some(e) => e,
        None => Seq::empty(),
    }
}

/// The corrected path of a file with frame number `n`: in the same
/// directory, named `image_` followed by the number padded with zeros to
/// four digits, a dot and the file's extension.
pub open spec fn corrected_path(file: Seq<char>, n: u32) -> Seq<char> {
    path_with_file_name(file, "image_"@ + zero_pad(decimal(n as nat), 4) + "."@ + extension_or_empty(file))
}

/// The map from frame numbers to the files that carry them, as they are
/// named, built in order: a number already mapped keeps its first file.
pub open spec fn map_originals(files: Seq<Seq<char>>) -> Map<u32, Seq<char>>
    decreases files.len(),
{
    if files.len() == 0 {
        Map::empty()
    } else {
        let o = map_originals(files.drop_last());
        match file_number(files.last()) {
            Some(n) => if o.contains_key(n) {
                o
            } else {
                o.insert(n, files.last())
            },
            None => o,
        }
    }
}

/// The map from frame numbers to corrected file paths, built in order;
/// files without a number are left out. Fails at the first file whose
/// number was already mapped, with the number, the file mapped first (as
/// it is named) and that file.
pub open spec fn map_by_number(files: Seq<Seq<char>>) -> Result<Map<u32, Seq<char>>, (u32, Seq<char>, Seq<char>)>
    decreases files.len(),
{
    if files.len() == 0 {
        Ok(Map::empty())
    } else {
        match map_by_number(files.drop_last()) {
            Err(e) => Err(e),
            Ok(m) => match file_number(files.last()) {
                None => Ok(m),
                Some(n) => if m.contains_key(n) {
                    Err((n, map_originals(files.drop_last())[n], files.last()))
                } else {
                    Ok(m.insert(n, corrected_path(files.last(), n)))
                },
            },
        }
    }
}

/// The contents of a map of strings, each string taken by its view.
pub open spec fn string_map_view(m: Map<u32, String>) -> Map<u32, Seq<char>> {
    m.map_values(|s: String| s@)
}

/// The views of a sequence of strings.
pub open spec fn strings_view(v: Seq<String>) -> Seq<Seq<char>> {
    v.map_values(|s: String| s@)
}

/// No two numbered files carry the same number.
pub open spec fn distinct_numbers(files: Seq<Seq<char>>) -> bool {
    forall|i: int, j: int|
        0 <= i < j < files.len() && (#[trigger] file_number(files[i])) is Some
            ==> file_number(files[i]) != #[trigger] file_number(files[j])
}

/// Mapping files by number succeeds exactly when no two numbered files
/// carry the same number. It then maps the number of each numbered file to
/// that file's corrected path, and holds no other number.
pub proof fn law_map_by_number(files: Seq<Seq<char>>)
    ensures
        map_by_number(files) is Ok <==> distinct_numbers(files),
        map_by_number(files) matches Ok(m) ==> {
            &&& forall|i: int|
                0 <= i < files.len() && (#[trigger] file_number(files[i])) is Some
                    ==> m.contains_key(file_number(files[i])->0)
                        && m[file_number(files[i])->0] == corrected_path(files[i], file_number(files[i])->0)
            &&& forall|n: u32| m.contains_key(n) ==> exists|i: int| 0 <= i < files.len() && #[trigger] file_number(files[i]) == Some(n)
        },
    decreases files.len(),
{
    if files.len() == 0 {
        return;
    }
    let init = files.drop_last();
    let last = files.last();
    let k = files.len() - 1;
    law_map_by_number(init);
    assert forall|i: int| 0 <= i < init.len() implies #[trigger] init[i] == files[i] by {}
    match map_by_number(init) {
        Err(_) => {
            assert(!distinct_numbers(init));
            let (i, j) = choose|i: int, j: int|
                0 <= i < j < init.len() && (#[trigger] file_number(init[i])) is Some
                    && file_number(init[i]) == #[trigger] file_number(init[j]);
            assert(file_number(files[i]) == file_number(files[j]));
        },
        Ok(m) => {
            match file_number(last) {
                None => {
                    assert(distinct_numbers(init) ==> distinct_numbers(files)) by {
                        if distinct_numbers(init) {
                            assert forall|i: int, j: int|
                                0 <= i < j < files.len() && (#[trigger] file_number(files[i])) is Some
                                    implies file_number(files[i]) != #[trigger] file_number(files[j]) by {
                                if j < k {
                                    assert(file_number(init[i]) != file_number(init[j]));
                                }
                            }
                        }
                    }
                    assert(distinct_numbers(files) ==> distinct_numbers(init)) by {
                        if distinct_numbers(files) {
                            assert forall|i: int, j: int|
                                0 <= i < j < init.len() && (#[trigger] file_number(init[i])) is Some
                                    implies file_number(init[i]) != #[trigger] file_number(init[j]) by {
                                assert(file_number(files[i]) != file_number(files[j]));
                            }
                        }
                    }
                    assert forall|n: u32| m.contains_key(n) implies exists|i: int|
                        0 <= i < files.len() && #[trigger] file_number(files[i]) == Some(n) by {
                        let i = choose|i: int| 0 <= i < init.len() && #[trigger] file_number(init[i]) == Some(n);
                        assert(file_number(files[i]) == Some(n));
                    }
                    assert forall|i: int|
                        0 <= i < files.len() && (#[trigger] file_number(files[i])) is Some
                            implies m.contains_key(file_number(files[i])->0)
                                && m[file_number(files[i])->0] == corrected_path(files[i], file_number(files[i])->0) by {
                        if i < k {
                            assert(file_number(init[i]) is Some);
                        }
                    }
                },
                Some(n) => {
                    if m.contains_key(n) {
                        let i = choose|i: int| 0 <= i < init.len() && #[trigger] file_number(init[i]) == Some(n);
                        assert(file_number(files[i]) == file_number(files[k]));
                        assert(!distinct_numbers(files));
                    } else {
                        assert forall|i: int, j: int|
                            0 <= i < j < files.len() && (#[trigger] file_number(files[i])) is Some
                                implies file_number(files[i]) != #[trigger] file_number(files[j]) by {
                            if j < k {
                                assert(file_number(init[i]) != file_number(init[j]));
                            } else {
                                assert(m.contains_key(file_number(init[i])->0));
                            }
                        }
                        let m2 = m.insert(n, corrected_path(last, n));
                        assert forall|i: int|
                            0 <= i < files.len() && (#[trigger] file_number(files[i])) is Some
                                implies m2.contains_key(file_number(files[i])->0)
                                    && m2[file_number(files[i])->0] == corrected_path(files[i], file_number(files[i])->0) by {
                            if i < k {
                                assert(file_number(init[i]) is Some);
                                assert(m.contains_key(file_number(init[i])->0));
                            }
                        }
                        assert forall|x: u32| m2.contains_key(x) implies exists|i: int|
                            0 <= i < files.len() && #[trigger] file_number(files[i]) == Some(x) by {
                            if x == n {
                                assert(file_number(files[k]) == Some(x));
                            } else {
                                let i = choose|i: int| 0 <= i < init.len() && #[trigger] file_number(init[i]) == Some(x);
                                assert(file_number(files[i]) == Some(x));
                            }
                        }
                        assert(distinct_numbers(init)) by {
                            assert forall|i: int, j: int|
                                0 <= i < j < init.len() && (#[trigger] file_number(init[i])) is Some
                                    implies file_number(init[i]) != #[trigger] file_number(init[j]) by {
                                assert(file_number(files[i]) != file_number(files[j]));
                            }
                        }
                    }
                },
            }
        },
    }
}

/// Once mapping a prefix of the files fails, mapping all of them fails the
/// same way.
proof fn lemma_map_by_number_err_extends(files: Seq<Seq<char>>, k: int)
    requires
        0 <= k <= files.len(),
        map_by_number(files.take(k)) is Err,
    ensures
        map_by_number(files) == map_by_number(files.take(k)),
    decreases files.len() - k,
{
    if k < files.len() {
        assert(files.take(k + 1).drop_last() =~= files.take(k));
        lemma_map_by_number_err_extends(files, k + 1);
    } else {
        assert(files.take(k) =~= files);
    }
}

/// Extracts the frame number from a file name: the digits after the first
/// underscore followed by digits, when they fit in a `u32`.
pub fn extract_correct_number(filename: &str) -> (r: Option<u32>)
    ensures
        r == number_in_name(filename@),
        all_ascii(filename@) ==> r == ascii_number_in_name(filename@),
{
    let pattern = "_(\\d+)";
    proof {
        reveal_strlit("_(\\d+)");
        assert(pattern@ =~= number_pattern());
    }
    match regex_first_group(pattern, filename) {
        Some(c) => match parse_unsigned_str(c.as_str(), 0xffff_ffff) {
            Some(v) => Some(v as u32),
            None => None,
        },
        None => None,
    }
}

/// Maps image files to their frame numbers, each number to the file's
/// corrected path (`image_NNNN.ext` in the file's directory). Files without
/// a number are skipped; two files with the same number make it fail with
/// `DuplicateIdentifier`, which carries the file mapped first and the
/// later file, both as they are named.
pub fn map_files_by_number(files: Vec<String>) -> (r: Result<BTreeMap<u32, String>, ImageMappingError>)
    ensures
        match map_by_number(strings_view(files@)) {
            Ok(m) => r matches Ok(rm) && string_map_view(rm@) == m,
            Err((n, first, later)) => r matches Err(
                ImageMappingError::DuplicateIdentifier(rn, rf, rl),
            ) && rn == n && rf@ == first && rl@ == later,
        },
        r is Ok ==> forall|i: int| 0 <= i < files@.len() && #[trigger] ascii_stem(files@[i]@)
            ==> file_number(files@[i]@) == ascii_file_number(files@[i]@),
{
    let mut map: BTreeMap<u32, String> = BTreeMap::new();
    let mut originals: BTreeMap<u32, String> = BTreeMap::new();
    let mut i: usize = 0;
    let ghost fv = strings_view(files@);
    proof {
        assert(fv.take(0) =~= Seq::<Seq<char>>::empty());
        assert(string_map_view(map@) =~= Map::<u32, Seq<char>>::empty());
        assert(string_map_view(originals@) =~= Map::<u32, Seq<char>>::empty());
    }
    while i < files.len()
        invariant
            i <= files@.len(),
            fv == strings_view(files@),
            map_by_number(fv.take(i as int)) == Ok::<Map<u32, Seq<char>>, (u32, Seq<char>, Seq<char>)>(string_map_view(map@)),
            string_map_view(originals@) == map_originals(fv.take(i as int)),
            originals@.dom() == map@.dom(),
            forall|j: int| 0 <= j < i && #[trigger] ascii_stem(files@[j]@)
                ==> file_number(files@[j]@) == ascii_file_number(files@[j]@),
        decreases files@.len() - i,
    {
        let file = &files[i];
        proof {
            assert(fv.take(i + 1).drop_last() =~= fv.take(i as int));
            assert(fv.take(i + 1).last() == file@);
        }
        if let Some(stem) = file_stem(file.as_str()) {
            if let Some(number) = extract_correct_number(stem.as_str()) {
                let ext = match extension(file.as_str()) {
                    Some(e) => e,
                    None => String::new(),
                };
                let padded = zero_padded_decimal(number as u64, 4);
                let name = concat(concat(concat("image_", padded.as_str()).as_str(), ".").as_str(), ext.as_str());
                let corrected = with_file_name(file.as_str(), name.as_str());
                proof {
                    assert(name@ =~= "image_"@ + zero_pad(decimal(number as nat), 4) + "."@ + extension_or_empty(file@));
                }
                match originals.get(&number) {
                    Some(existing) => {
                        let e = ImageMappingError::DuplicateIdentifier(
                            number,
                            existing.clone(),
                            file.clone(),
                        );
                        proof {
                            assert(string_map_view(map@).contains_key(number));
                            assert(map_by_number(fv.take(i + 1)) == Err::<Map<u32, Seq<char>>, (u32, Seq<char>, Seq<char>)>((number, existing@, file@)));
                            lemma_map_by_number_err_extends(fv, i as int + 1);
                        }
                        return Err(e);
                    },
                    None => {
                        let ghost old_map = map@;
                        let ghost old_originals = originals@;
                        assert(!string_map_view(map@).contains_key(number));
                        map.insert(number, corrected);
                        originals.insert(number, file.clone());
                        proof {
                            assert(string_map_view(map@) =~= string_map_view(old_map).insert(
                                number,
                                corrected_path(file@, number),
                            ));
                            assert(string_map_view(originals@) =~= string_map_view(old_originals).insert(number, file@));
                            assert(originals@.dom() =~= map@.dom());
                        }
                    },
                }
            }
        }
        i = i + 1;
    }
    proof {
        assert(fv.take(files@.len() as int) =~= fv);
    }
    Ok(map)
}


/// What becomes of one image while loading: it fails, or it is ready, with
/// the rename that brings its name into shape (if any) and the path it ends
/// up at.
pub enum PreparedImage {
    Failed(MappingErrorView),
    Ready(Option<(Seq<char>, Seq<char>)>, Seq<char>),
}

/// How an image (other than the first) is prepared for loading: its name is
/// split into parts, its prefix is checked against the common prefix and its
/// suffix brought into canonical form; a changed name is renamed.
pub open spec fn prepare_image(image: Seq<char>, common_prefix: Seq<char>) -> PreparedImage {
    match split_filename(image) {
        None => PreparedImage::Failed(
            MappingErrorView::InvalidFilename(image, split_error_message(image)),
        ),
        Some((prefix, suffix, ext)) => match path_prefix(image) {
            None => PreparedImage::Failed(
                MappingErrorView::InvalidFilename(image, "Could not extract valid file stem"@),
            ),
            Some(current) => {
                let prefix_changed = current != common_prefix;
                let new_prefix = if prefix_changed { common_prefix } else { prefix };
                let new_suffix = normalized_suffix(suffix);
                let modified = prefix_changed || new_suffix != suffix;
                let target = path_with_file_name(image, filename_from_parts(new_prefix, new_suffix, ext));
                if modified && !path_eq(target, image) {
                    PreparedImage::Ready(Some((image, target)), target)
                } else {
                    PreparedImage::Ready(None, image)
                }
            },
        },
    }
}

/// The result of loading a directory's images, with strings taken as
/// character sequences.
pub enum LoadOutcomeView {
    Loaded(Map<u32, Seq<char>>),
    Failed(MappingErrorView),
}

/// Prepares the images of `rest` in order until one fails: the renames to
/// make, the paths of the images prepared, and the outcome that stopped the
/// preparation, if one did.
pub open spec fn prepare_images(rest: Seq<Seq<char>>, common_prefix: Seq<char>) -> (Seq<(Seq<char>, Seq<char>)>, Seq<Seq<char>>, Option<LoadOutcomeView>)
    decreases rest.len(),
{
    if rest.len() == 0 {
        (Seq::empty(), Seq::empty(), None)
    } else {
        let (renames, paths, stop) = prepare_images(rest.drop_last(), common_prefix);
        if stop is Some {
            (renames, paths, stop)
        } else {
            match prepare_image(rest.last(), common_prefix) {
                PreparedImage::Failed(e) => (renames, paths, Some(LoadOutcomeView::Failed(e))),
                PreparedImage::Ready(rename, path) => (
                    match rename {
                        Some(rn) => renames.push(rn),
                        None => renames,
                    },
                    paths.push(path),
                    None,
                ),
            }
        }
    }
}

/// Whether a mode loads image files.
pub open spec fn mode_loads_files(mode: Modes) -> bool {
    !(mode is Exporter || mode is Sampler)
}

/// The plan for loading `images` in `mode`: the renames to perform, in
/// order, and what loading then yields. Without images nothing is found.
/// The first image fixes the common prefix and is taken as it is; each further image is prepared; then the
/// images are mapped by frame number.
pub open spec fn load_plan(mode: Modes, images: Seq<Seq<char>>) -> (Seq<(Seq<char>, Seq<char>)>, LoadOutcomeView) {
    if !mode_loads_files(mode) {
        (Seq::empty(), LoadOutcomeView::Failed(MappingErrorView::UnsupportedMode))
    } else if images.len() == 0 {
        (Seq::empty(), LoadOutcomeView::Failed(MappingErrorView::FileNotFound(Seq::empty())))
    } else {
        match split_filename(images[0]) {
            None => (
                Seq::empty(),
                LoadOutcomeView::Failed(
                    MappingErrorView::InvalidFilename(images[0], split_error_message(images[0])),
                ),
            ),
            Some((common, _, _)) => {
                let (renames, paths, stop) = prepare_images(images.skip(1), common);
                match stop {
                    Some(outcome) => (renames, outcome),
                    None => match map_by_number(seq![images[0]] + paths) {
                        Ok(m) => (renames, LoadOutcomeView::Loaded(m)),
                        Err((n, a, b)) => (
                            renames,
                            LoadOutcomeView::Failed(MappingErrorView::DuplicateIdentifier(n, a, b)),
                        ),
                    },
                }
            },
        }
    }
}

/// The result of loading a directory's images.
#[derive(Debug)]
pub enum LoadOutcome {
    /// The images, by frame number.
    Loaded(BTreeMap<u32, String>),
    /// Loading failed.
    Failed(ImageMappingError),
}

impl View for LoadOutcome {
    type V = LoadOutcomeView;

    open spec fn view(&self) -> LoadOutcomeView {
        match self {
            LoadOutcome::Loaded(m) => LoadOutcomeView::Loaded(string_map_view(m@)),
            LoadOutcome::Failed(e) => LoadOutcomeView::Failed(e@),
        }
    }
}

/// What loading a directory's images takes: renames to perform in order,
/// each from the first path to the second, then the outcome. When a rename
/// fails, loading stops there with a `RenameError`.
#[derive(Debug)]
pub struct LoadPlan {
    pub renames: Vec<(String, String)>,
    pub outcome: LoadOutcome,
}

/// The views of a sequence of string pairs.
pub open spec fn pairs_view(v: Seq<(String, String)>) -> Seq<(Seq<char>, Seq<char>)> {
    v.map_values(|p: (String, String)| (p.0@, p.1@))
}

/// Loading of image files for a mode.
pub trait FileOperations {
    /// The plan for loading `images`.
    fn load_files(&self, images: &Vec<String>) -> LoadPlan;
}

/// Prepares one image for loading.
fn prepare_one(image: &String, common_prefix: &str) -> (r: Result<(Option<(String, String)>, String), LoadOutcome>)
    ensures
        match prepare_image(image@, common_prefix@) {
            PreparedImage::Failed(e) => r matches Err(LoadOutcome::Failed(re)) && re@ == e,
            PreparedImage::Ready(rename, path) => r matches Ok((rr, rp)) && rp@ == path && match rename {
                Some((a, b)) => rr matches Some((ra, rb)) && ra@ == a && rb@ == b,
                None => rr is None,
            },
        },
{
    let mut parts = match FilenameParts::new(image.as_str()) {
        Ok(p) => p,
        Err(e) => return Err(LoadOutcome::Failed(e)),
    };
    match parts.check_prefix(common_prefix) {
        Ok(()) => {},
        Err(e) => return Err(LoadOutcome::Failed(e)),
    }
    let _ = parts.check_suffix();
    let target = parts.rename_target();
    let rename = match target {
        Some(t) => Some((image.clone(), t)),
        None => None,
    };
    parts.mark_saved();
    Ok((rename, parts.path))
}

impl FileOperations for Modes {
    /// The plan for loading `images`: Exporter and Sampler do not load
    /// files; the other modes take the first image's prefix as the common
    /// prefix, bring the other images' names into shape and map all images
    /// by frame number.
    fn load_files(&self, images: &Vec<String>) -> (r: LoadPlan)
        ensures
            pairs_view(r.renames@) == load_plan(*self, strings_view(images@)).0,
            r.outcome@ == load_plan(*self, strings_view(images@)).1,
    {
        let ghost iv = strings_view(images@);
        match self {
            Modes::Exporter | Modes::Sampler => {
                let renames: Vec<(String, String)> = Vec::new();
                assert(pairs_view(renames@) =~= Seq::<(Seq<char>, Seq<char>)>::empty());
                return LoadPlan { renames, outcome: LoadOutcome::Failed(ImageMappingError::UnsupportedMode) };
            },
            _ => {},
        }
        if images.len() == 0 {
            let renames: Vec<(String, String)> = Vec::new();
            assert(pairs_view(renames@) =~= Seq::<(Seq<char>, Seq<char>)>::empty());
            return LoadPlan { renames, outcome: LoadOutcome::Failed(ImageMappingError::FileNotFound(String::new())) };
        }
        assert(iv[0] == images@[0]@);
        let first = match FilenameParts::new(images[0].as_str()) {
            Ok(p) => p,
            Err(e) => {
                let renames: Vec<(String, String)> = Vec::new();
                assert(pairs_view(renames@) =~= Seq::<(Seq<char>, Seq<char>)>::empty());
                return LoadPlan { renames, outcome: LoadOutcome::Failed(e) };
            },
        };
        let common = first.prefix;
        let mut renames: Vec<(String, String)> = Vec::new();
        let mut paths: Vec<String> = Vec::new();
        paths.push(first.path);
        let ghost rest = iv.skip(1);
        let mut i: usize = 1;
        proof {
            assert(rest.take(0) =~= Seq::<Seq<char>>::empty());
            assert(pairs_view(renames@) =~= Seq::<(Seq<char>, Seq<char>)>::empty());
            assert(strings_view(paths@) =~= seq![iv[0]] + Seq::<Seq<char>>::empty());
        }
        while i < images.len()
            invariant
                1 <= i <= images@.len(),
                iv == strings_view(images@),
                mode_loads_files(*self),
                split_filename(iv[0]) matches Some((c, _, _)) && c == common@,
                rest == iv.skip(1),
                prepare_images(rest.take(i - 1), common@).2 is None,
                pairs_view(renames@) == prepare_images(rest.take(i - 1), common@).0,
                strings_view(paths@) == seq![iv[0]] + prepare_images(rest.take(i - 1), common@).1,
            decreases images@.len() - i,
        {
            proof {
                assert(rest.take(i as int).drop_last() =~= rest.take(i - 1));
                assert(rest.take(i as int).last() == images@[i as int]@);
            }
            match prepare_one(&images[i], common.as_str()) {
                Err(outcome) => {
                    proof {
                        let pre = prepare_images(rest.take(i - 1), common@);
                        assert(prepare_images(rest.take(i as int), common@) == (pre.0, pre.1, Some(outcome@)));
                        lemma_prepare_images_stop_extends(rest, i as int, common@);
                    }
                    return LoadPlan { renames, outcome };
                },
                Ok((rename, path)) => {
                    let ghost old_renames = renames@;
                    let ghost old_paths = paths@;
                    match rename {
                        Some(rn) => {
                            renames.push(rn);
                        },
                        None => {},
                    }
                    let ghost pv = path@;
                    paths.push(path);
                    proof {
                        assert(strings_view(paths@) =~= strings_view(old_paths).push(pv));
                        assert(strings_view(paths@) =~= (seq![iv[0]] + prepare_images(rest.take(i - 1), common@).1).push(pv));
                        assert(pairs_view(renames@) =~= prepare_images(rest.take(i as int), common@).0);
                        assert(strings_view(paths@) =~= seq![iv[0]] + prepare_images(rest.take(i as int), common@).1);
                    }
                },
            }
            i = i + 1;
        }
        proof {
            assert(rest.take(i - 1) =~= rest);
        }
        let outcome = match map_files_by_number(paths) {
            Ok(m) => LoadOutcome::Loaded(m),
            Err(e) => LoadOutcome::Failed(e),
        };
        LoadPlan { renames, outcome }
    }
}

/// Once preparing a prefix of the images stops, preparing all of them stops
/// the same way.
proof fn lemma_prepare_images_stop_extends(rest: Seq<Seq<char>>, k: int, common: Seq<char>)
    requires
        0 <= k <= rest.len(),
        prepare_images(rest.take(k), common).2 is Some,
    ensures
        prepare_images(rest, common) == prepare_images(rest.take(k), common),
    decreases rest.len() - k,
{
    if k < rest.len() {
        assert(rest.take(k + 1).drop_last() =~= rest.take(k));
        lemma_prepare_images_stop_extends(rest, k + 1, common);
    } else {
        assert(rest.take(k) =~= rest);
    }
}

/// Preparing more images keeps the renames found for the earlier ones.
proof fn lemma_prepare_images_renames_grow(rest: Seq<Seq<char>>, n: int, common: Seq<char>)
    requires
        0 <= n <= rest.len(),
    ensures
        prepare_images(rest.take(n), common).0.len() <= prepare_images(rest, common).0.len(),
        forall|i: int| 0 <= i < prepare_images(rest.take(n), common).0.len()
            ==> prepare_images(rest, common).0[i] == #[trigger] prepare_images(rest.take(n), common).0[i],
    decreases rest.len() - n,
{
    if n < rest.len() {
        let s1 = rest.take(n + 1);
        assert(s1.drop_last() =~= rest.take(n));
        let a = prepare_images(rest.take(n), common).0;
        let b = prepare_images(s1, common).0;
        assert(b.len() >= a.len() && forall|i: int| 0 <= i < a.len() ==> b[i] == a[i]) by {
            if prepare_images(rest.take(n), common).2 is None {
                match prepare_image(s1.last(), common) {
                    PreparedImage::Failed(_) => {},
                    PreparedImage::Ready(rn, _) => {
                        match rn {
                            Some(x) => {
                                assert(b == a.push(x));
                            },
                            None => {},
                        }
                    },
                }
            }
        }
        lemma_prepare_images_renames_grow(rest, n + 1, common);
        let c = prepare_images(rest, common).0;
        assert forall|i: int| 0 <= i < a.len() implies c[i] == #[trigger] a[i] by {
            assert(c[i] == b[i]);
        }
    } else {
        assert(rest.take(n) =~= rest);
    }
}

/// Preparation does not stop while every image is ready.
proof fn lemma_prepare_images_no_stop(rest: Seq<Seq<char>>, n: int, common: Seq<char>)
    requires
        0 <= n <= rest.len(),
        forall|j: int| 0 <= j < n ==> #[trigger] prepare_image(rest[j], common) is Ready,
    ensures
        prepare_images(rest.take(n), common).2 is None,
    decreases n,
{
    if n > 0 {
        assert(rest.take(n).drop_last() =~= rest.take(n - 1));
        assert(rest.take(n).last() == rest[n - 1]);
        lemma_prepare_images_no_stop(rest, n - 1, common);
    } else {
        assert(rest.take(0).len() == 0);
    }
}

/// A changed prefix alone makes an image be renamed: when loading reaches
/// an image after the first (it and every image before it split into
/// prefix, suffix and extension) whose prefix differs from the first
/// image's, the plan renames it, in its directory, to the first image's
/// prefix, `_`, its suffix in canonical form, `.` and its extension, unless
/// that is the path it already has.
pub proof fn law_load_renames_into_common_prefix(mode: Modes, images: Seq<Seq<char>>, k: int)
    requires
        mode_loads_files(mode),
        1 <= k < images.len(),
        split_filename(images[0]) is Some,
        forall|j: int| 1 <= j <= k ==> split_filename(#[trigger] images[j]) is Some && path_prefix(images[j]) is Some,
        path_prefix(images[k])->0 != split_filename(images[0]).unwrap().0,
        !path_eq(
            path_with_file_name(
                images[k],
                split_filename(images[0]).unwrap().0 + seq!['_'] + normalized_suffix(split_filename(images[k]).unwrap().1) + seq!['.']
                    + split_filename(images[k]).unwrap().2,
            ),
            images[k],
        ),
    ensures
        load_plan(mode, images).0.contains(
            (
                images[k],
                path_with_file_name(
                    images[k],
                    split_filename(images[0]).unwrap().0 + seq!['_'] + normalized_suffix(split_filename(images[k]).unwrap().1)
                        + seq!['.'] + split_filename(images[k]).unwrap().2,
                ),
            ),
        ),
{
    let common = split_filename(images[0]).unwrap().0;
    let rest = images.skip(1);
    let target = path_with_file_name(
        images[k],
        common + seq!['_'] + normalized_suffix(split_filename(images[k]).unwrap().1) + seq!['.'] + split_filename(images[k]).unwrap().2,
    );
    assert(target == path_with_file_name(
        images[k],
        filename_from_parts(common, normalized_suffix(split_filename(images[k]).unwrap().1), split_filename(images[k]).unwrap().2),
    ));
    assert forall|j: int| 0 <= j < k implies #[trigger] prepare_image(rest[j], common) is Ready by {
        assert(rest[j] == images[j + 1]);
    }
    assert(rest[k - 1] == images[k]);
    assert(prepare_image(rest[k - 1], common) == PreparedImage::Ready(Some((images[k], target)), target));
    lemma_prepare_images_no_stop(rest, k - 1, common);
    assert(rest.take(k).drop_last() =~= rest.take(k - 1));
    assert(rest.take(k).last() == rest[k - 1]);
    let pk = prepare_images(rest.take(k), common).0;
    assert(pk.last() == (images[k], target));
    lemma_prepare_images_renames_grow(rest, k, common);
    assert(prepare_images(rest, common).0[pk.len() - 1] == pk[pk.len() - 1]);
    assert(load_plan(mode, images).0 == prepare_images(rest, common).0);
}

} // verus!
