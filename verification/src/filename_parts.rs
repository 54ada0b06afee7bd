//! The parts of an image file name: a prefix before the first underscore, a
//! numeric suffix after it, and the extension; and the rules that bring a
//! suffix into the canonical zero-padded form.
use vstd::prelude::*;
use crate::text::{all_digits, chars_of, decimal, decimal_string, is_digit, slice_chars, string_of, zeros};
use crate::paths::{
    debug_path, extension, file_name, file_stem, path_debug, path_eq, path_extension, path_file_name, path_file_stem,
    path_with_file_name, same_path, with_file_name,
};

verus! {

/// Errors raised while mapping image files to frame numbers.
#[derive(Debug)]
pub enum ImageMappingError {
    /// The mode does not load image files.
    UnsupportedMode,
    /// Two files carry the same frame number: the number, the file mapped
    /// first and the file met later.
    DuplicateIdentifier(u32, String, String),
    /// Renaming an image failed, with the reason.
    RenameError(String),
    /// A file name cannot be split into its parts: the path and the reason.
    InvalidFilename(String, String),
    /// No images were found in the named folder.
    FileNotFound(String),
}

/// An `ImageMappingError` with its strings taken as character sequences.
pub enum MappingErrorView {
    UnsupportedMode,
    DuplicateIdentifier(u32, Seq<char>, Seq<char>),
    RenameError(Seq<char>),
    InvalidFilename(Seq<char>, Seq<char>),
    FileNotFound(Seq<char>),
}

impl View for ImageMappingError {
    type V = MappingErrorView;

    open spec fn view(&self) -> MappingErrorView {
        match self {
            ImageMappingError::UnsupportedMode => MappingErrorView::UnsupportedMode,
            ImageMappingError::DuplicateIdentifier(n, a, b) => MappingErrorView::DuplicateIdentifier(
                *n,
                a@,
                b@,
            ),
            ImageMappingError::RenameError(m) => MappingErrorView::RenameError(m@),
            ImageMappingError::InvalidFilename(p, m) => MappingErrorView::InvalidFilename(p@, m@),
            ImageMappingError::FileNotFound(d) => MappingErrorView::FileNotFound(d@),
        }
    }
}

/// The text of an error, as it is shown to the user.
pub open spec fn mapping_error_message(e: MappingErrorView) -> Seq<char> {
    match e {
        MappingErrorView::UnsupportedMode => "Mode not supported"@,
        MappingErrorView::DuplicateIdentifier(n, a, b) => "Duplicate numerical identifier "@ + decimal(n as nat)
            + " found in files: "@ + path_debug(a) + " and "@ + path_debug(b),
        MappingErrorView::RenameError(m) => "Failed to rename image "@ + m,
        MappingErrorView::InvalidFilename(p, m) => "Invalid filename "@ + path_debug(p) + ": "@ + m,
        MappingErrorView::FileNotFound(d) => "No images found on target folder "@ + d,
    }
}

impl ImageMappingError {
    /// The text of the error, as it is shown to the user.
    pub fn message(&self) -> (r: String)
        ensures
            r@ == mapping_error_message(self@),
    {
        let mut s = String::new();
        match self {
            ImageMappingError::UnsupportedMode => {
                s.append("Mode not supported");
            },
            ImageMappingError::DuplicateIdentifier(n, a, b) => {
                s.append("Duplicate numerical identifier ");
                s.append(decimal_string(*n as u64).as_str());
                s.append(" found in files: ");
                s.append(debug_path(a.as_str()).as_str());
                s.append(" and ");
                s.append(debug_path(b.as_str()).as_str());
            },
            ImageMappingError::RenameError(m) => {
                s.append("Failed to rename image ");
                s.append(m.as_str());
            },
            ImageMappingError::InvalidFilename(p, m) => {
                s.append("Invalid filename ");
                s.append(debug_path(p.as_str()).as_str());
                s.append(": ");
                s.append(m.as_str());
            },
            ImageMappingError::FileNotFound(d) => {
                s.append("No images found on target folder ");
                s.append(d.as_str());
            },
        }
        s
    }
}

/// Holds the parts of a file name: prefix, suffix, the file's path, its
/// extension, and whether prefix or suffix were changed since the file was
/// last saved.
#[derive(Debug)]
pub struct FilenameParts {
    pub prefix: String,
    pub suffix: String,
    pub path: String,
    pub file_extension: String,
    pub modified: bool,
}

/// The index of the first `_` in `s` at or after `i`.
pub open spec fn first_underscore_from(s: Seq<char>, i: int) -> Option<int>
    decreases s.len() - i,
{
    if i < 0 || i >= s.len() {
        None
    } else if s[i] == '_' {
        Some(i)
    } else {
        first_underscore_from(s, i + 1)
    }
}

/// The index of the first `_` in `s`.
pub open spec fn first_underscore(s: Seq<char>) -> Option<int> {
    first_underscore_from(s, 0)
}

/// Everything before the first `_` of `s`, or all of `s` when it has none.
pub open spec fn before_first_underscore(s: Seq<char>) -> Seq<char> {
    match first_underscore(s) {
        Some(i) => s.take(i),
        None => s,
    }
}

/// The index of the first ASCII digit of `s` at or after `i`.
pub open spec fn first_digit_from(s: Seq<char>, i: int) -> Option<int>
    decreases s.len() - i,
{
    if i < 0 || i >= s.len() {
        None
    } else if is_digit(s[i]) {
        Some(i)
    } else {
        first_digit_from(s, i + 1)
    }
}

/// The first step of the suffix check: when `s` holds a digit, it is cut at
/// the first underscore after that digit.
pub open spec fn cut_after_first_digit(s: Seq<char>) -> Seq<char> {
    match first_digit_from(s, 0) {
        Some(k) => match first_underscore_from(s, k + 1) {
            Some(j) => s.take(j),
            None => s,
        },
        None => s,
    }
}

/// The ASCII digits of `s`, in order.
pub open spec fn keep_digits(s: Seq<char>) -> Seq<char>
    decreases s.len(),
{
    if s.len() == 0 {
        Seq::empty()
    } else if is_digit(s.last()) {
        keep_digits(s.drop_last()).push(s.last())
    } else {
        keep_digits(s.drop_last())
    }
}

/// `s` left-padded with zeros to the next multiple of four characters.
pub open spec fn pad_to_four(s: Seq<char>) -> Seq<char> {
    if s.len() % 4 == 0 {
        s
    } else {
        zeros((4 - s.len() % 4) as nat) + s
    }
}

/// The canonical form of a suffix: cut at the underscore after its first
/// digit, reduced to its digits, padded with zeros to a multiple of four.
pub open spec fn normalized_suffix(s: Seq<char>) -> Seq<char> {
    pad_to_four(keep_digits(cut_after_first_digit(s)))
}

/// How a file path splits into prefix, suffix and extension: its file name
/// is split at the first underscore, and the extension is the path's
/// extension. `None` when the path has no file name, no extension, or a
/// file name without underscore.
pub open spec fn split_filename(file: Seq<char>) -> Option<(Seq<char>, Seq<char>, Seq<char>)> {
    match (path_file_name(file), path_extension(file)) {
        (Some(name), Some(ext)) => match first_underscore(name) {
            Some(i) => Some((name.take(i), name.skip(i + 1), ext)),
            None => None,
        },
        _ => None,
    }
}

/// The reason given when a file path does not split into its parts.
pub open spec fn split_error_message(file: Seq<char>) -> Seq<char> {
    if path_file_name(file) is None {
        "Filename is not valid UTF-8"@
    } else if path_extension(file) is None {
        "Filename does not have a valid extension"@
    } else {
        "Filename does not contain '_' to split into prefix and suffix"@
    }
}

/// The path a modified file is renamed to when saved, if it differs from
/// its current path.
pub open spec fn rename_target_of(parts: FilenameParts) -> Option<Seq<char>> {
    if parts.modified {
        let target = path_with_file_name(
            parts.path@,
            filename_from_parts(parts.prefix@, parts.suffix@, parts.file_extension@),
        );
        if path_eq(target, parts.path@) {
            None
        } else {
            Some(target)
        }
    } else {
        None
    }
}

/// The prefix of a path: its file stem before the first underscore.
pub open spec fn path_prefix(path: Seq<char>) -> Option<Seq<char>> {
    match path_file_stem(path) {
        Some(stem) => Some(before_first_underscore(stem)),
        None => None,
    }
}

/// The file name built from a prefix, a suffix and an extension.
pub open spec fn filename_from_parts(prefix: Seq<char>, suffix: Seq<char>, ext: Seq<char>) -> Seq<char> {
    prefix + seq!['_'] + suffix + seq!['.'] + ext
}

/// The canonical form of a suffix is made of digits, its length is a
/// multiple of four, and it is its own canonical form: checking a suffix
/// that was already checked changes nothing.
pub proof fn law_normalized_suffix_canonical(s: Seq<char>)
    ensures
        all_digits(normalized_suffix(s)),
        normalized_suffix(s).len() % 4 == 0,
        normalized_suffix(normalized_suffix(s)) == normalized_suffix(s),
{
    let d = keep_digits(cut_after_first_digit(s));
    lemma_keep_digits_all_digits(cut_after_first_digit(s));
    let t = normalized_suffix(s);
    assert(all_digits(t)) by {
        if d.len() % 4 != 0 {
            let z = zeros((4 - d.len() % 4) as nat);
            assert forall|i: int| 0 <= i < t.len() implies is_digit(#[trigger] t[i]) by {
                if i < z.len() {
                    assert(t[i] == z[i]);
                } else {
                    assert(t[i] == d[i - z.len()]);
                }
            }
        }
    }
    lemma_digits_canonical(t);
}

/// A string of digits whose length is a multiple of four is its own
/// canonical form.
proof fn lemma_digits_canonical(t: Seq<char>)
    requires
        all_digits(t),
    ensures
        t.len() % 4 == 0 ==> normalized_suffix(t) == t,
{
    lemma_keep_digits_of_digits(t);
    if t.len() > 0 {
        assert(is_digit(t[0]));
        assert(first_digit_from(t, 0) == Some(0int));
        lemma_no_underscore_in_digits(t, 1);
    }
}

/// A string of digits has no underscore.
proof fn lemma_no_underscore_in_digits(t: Seq<char>, i: int)
    requires
        all_digits(t),
    ensures
        first_underscore_from(t, i) is None,
    decreases t.len() - i,
{
    if 0 <= i < t.len() {
        assert(is_digit(t[i]));
        lemma_no_underscore_in_digits(t, i + 1);
    }
}

proof fn lemma_first_underscore_from_found(s: Seq<char>, i: int)
    requires
        first_underscore_from(s, i) is Some,
    ensures
        i <= first_underscore_from(s, i)->0 < s.len(),
        0 <= i,
        s[first_underscore_from(s, i)->0] == '_',
    decreases s.len() - i,
{
    if i >= 0 && i < s.len() && s[i] != '_' {
        lemma_first_underscore_from_found(s, i + 1);
    }
}

proof fn lemma_keep_digits_all_digits(s: Seq<char>)
    ensures
        all_digits(keep_digits(s)),
        keep_digits(s).len() <= s.len(),
    decreases s.len(),
{
    if s.len() > 0 {
        lemma_keep_digits_all_digits(s.drop_last());
    }
}

proof fn lemma_keep_digits_of_digits(s: Seq<char>)
    requires
        all_digits(s),
    ensures
        keep_digits(s) == s,
    decreases s.len(),
{
    if s.len() > 0 {
        assert(all_digits(s.drop_last()));
        lemma_keep_digits_of_digits(s.drop_last());
        assert(s.drop_last().push(s.last()) =~= s);
    }
}

proof fn lemma_first_digit_none_below(s: Seq<char>, i: int)
    requires
        0 <= i <= s.len(),
        forall|j: int| 0 <= j < i ==> !is_digit(#[trigger] s[j]),
    ensures
        first_digit_from(s, 0) == first_digit_from(s, i),
    decreases i,
{
    if i > 0 {
        lemma_first_digit_none_below(s, i - 1);
    }
}

proof fn lemma_first_underscore_none_below(s: Seq<char>, i: int)
    requires
        0 <= i <= s.len(),
        forall|j: int| 0 <= j < i ==> #[trigger] s[j] != '_',
    ensures
        first_underscore_from(s, 0) == first_underscore_from(s, i),
    decreases i,
{
    if i > 0 {
        lemma_first_underscore_none_below(s, i - 1);
    }
}

/// The index of the first ASCII digit of `cs`, if any.
fn find_first_digit(cs: &Vec<char>) -> (r: Option<usize>)
    ensures
        match r {
            Some(k) => first_digit_from(cs@, 0) == Some(k as int) && k < cs.len(),
            None => first_digit_from(cs@, 0) is None,
        },
{
    let mut i: usize = 0;
    while i < cs.len()
        invariant
            i <= cs@.len(),
            forall|j: int| 0 <= j < i ==> !is_digit(#[trigger] cs@[j]),
        decreases cs@.len() - i,
    {
        if '0' <= cs[i] && cs[i] <= '9' {
            proof {
                lemma_first_digit_none_below(cs@, i as int);
            }
            return Some(i);
        }
        i = i + 1;
    }
    proof {
        lemma_first_digit_none_below(cs@, i as int);
    }
    None
}

/// The first step of the suffix check on the characters `cs`.
fn cut_after_first_digit_exec(cs: &Vec<char>) -> (r: Vec<char>)
    ensures
        r@ == cut_after_first_digit(cs@),
{
    let fd = find_first_digit(cs);
    match fd {
        None => cs.clone(),
        Some(k) => {
            match find_underscore_from(cs, k + 1) {
                Some(j) => crate::text::slice_chars(cs, 0, j),
                None => cs.clone(),
            }
        },
    }
}

/// The index of the first `_` of `cs` at or after `start`.
pub fn find_underscore_from(cs: &Vec<char>, start: usize) -> (r: Option<usize>)
    ensures
        match r {
            Some(k) => first_underscore_from(cs@, start as int) == Some(k as int) && start <= k < cs.len()
                && cs@[k as int] == '_',
            None => first_underscore_from(cs@, start as int) is None,
        },
{
    let mut i: usize = start;
    if i > cs.len() {
        return None;
    }
    while i < cs.len()
        invariant
            start <= i <= cs@.len(),
            first_underscore_from(cs@, start as int) == first_underscore_from(cs@, i as int),
        decreases cs@.len() - i,
    {
        if cs[i] == '_' {
            return Some(i);
        }
        i = i + 1;
    }
    None
}

/// The ASCII digits of `cs`, in order.
fn keep_digits_exec(cs: &Vec<char>) -> (r: Vec<char>)
    ensures
        r@ == keep_digits(cs@),
{
    let mut out: Vec<char> = Vec::new();
    let mut i: usize = 0;
    while i < cs.len()
        invariant
            i <= cs@.len(),
            out@ == keep_digits(cs@.take(i as int)),
        decreases cs@.len() - i,
    {
        assert(cs@.take(i + 1).drop_last() =~= cs@.take(i as int));
        if '0' <= cs[i] && cs[i] <= '9' {
            out.push(cs[i]);
        }
        i = i + 1;
    }
    assert(cs@.take(cs@.len() as int) =~= cs@);
    out
}

/// `cs` left-padded with zeros to a multiple of four characters.
fn pad_to_four_exec(cs: &Vec<char>) -> (r: Vec<char>)
    ensures
        r@ == pad_to_four(cs@),
{
    let rem = cs.len() % 4;
    if rem == 0 {
        return cs.clone();
    }
    let pad = 4 - rem;
    let mut out: Vec<char> = Vec::new();
    let mut i: usize = 0;
    while i < pad
        invariant
            i <= pad,
            out@ == zeros(i as nat),
        decreases pad - i,
    {
        out.push('0');
        assert(out@ =~= zeros((i + 1) as nat));
        i = i + 1;
    }
    let mut j: usize = 0;
    while j < cs.len()
        invariant
            j <= cs@.len(),
            out@ == zeros(pad as nat) + cs@.take(j as int),
        decreases cs@.len() - j,
    {
        out.push(cs[j]);
        assert(cs@.take(j + 1) =~= cs@.take(j as int).push(cs@[j as int]));
        j = j + 1;
    }
    assert(cs@.take(cs@.len() as int) =~= cs@);
    out
}

/// The index of the first `_` in `cs`.
fn find_first_underscore(cs: &Vec<char>) -> (r: Option<usize>)
    ensures
        match r {
            Some(i) => first_underscore(cs@) == Some(i as int),
            None => first_underscore(cs@) is None,
        },
{
    let mut i: usize = 0;
    while i < cs.len()
        invariant
            i <= cs@.len(),
            forall|j: int| 0 <= j < i ==> #[trigger] cs@[j] != '_',
        decreases cs@.len() - i,
    {
        if cs[i] == '_' {
            proof {
                lemma_first_underscore_none_below(cs@, i as int);
            }
            return Some(i);
        }
        i = i + 1;
    }
    proof {
        lemma_first_underscore_none_below(cs@, i as int);
    }
    None
}

/// Extracts the prefix from an image path: everything in the file stem
/// before its first underscore, or the whole stem when it has none.
pub fn extract_prefix(path: &str) -> (r: Result<String, ImageMappingError>)
    ensures
        match r {
            Ok(p) => path_prefix(path@) == Some(p@),
            Err(e) => {
                &&& path_prefix(path@) is None
                &&& e matches ImageMappingError::InvalidFilename(p, m)
                &&& p@ == path@
                &&& m@ == "Could not extract valid file stem"@
            },
        },
{
    match file_stem(path) {
        None => {
            let m = String::from_str("Could not extract valid file stem");
            Err(ImageMappingError::InvalidFilename(String::from_str(path), m))
        },
        Some(stem) => {
            let cs = chars_of(stem.as_str());
            match find_first_underscore(&cs) {
                Some(i) => {
                    proof {
                        lemma_first_underscore_from_found(cs@, 0);
                    }
                    let p = slice_chars(&cs, 0, i);
                    assert(p@ =~= cs@.take(i as int));
                    Ok(string_of(p.as_slice()))
                },
                None => Ok(stem),
            }
        },
    }
}

impl FilenameParts {
    /// Splits a file's name at its first underscore into prefix and suffix
    /// and takes the file's extension. Fails when the path has no file name,
    /// no extension, or a file name without underscore.
    pub fn new(file: &str) -> (r: Result<Self, ImageMappingError>)
        ensures
            match r {
                Ok(p) => {
                    &&& split_filename(file@) == Some((p.prefix@, p.suffix@, p.file_extension@))
                    &&& p.path@ == file@
                    &&& !p.modified
                },
                Err(e) => {
                    &&& split_filename(file@) is None
                    &&& e matches ImageMappingError::InvalidFilename(p, m)
                    &&& p@ == file@
                    &&& m@ == split_error_message(file@)
                },
            },
    {
        let name = match file_name(file) {
            Some(n) => n,
            None => {
                let m = String::from_str("Filename is not valid UTF-8");
                return Err(ImageMappingError::InvalidFilename(String::from_str(file), m));
            },
        };
        let ext = match extension(file) {
            Some(e) => e,
            None => {
                let m = String::from_str("Filename does not have a valid extension");
                return Err(ImageMappingError::InvalidFilename(String::from_str(file), m));
            },
        };
        let cs = chars_of(name.as_str());
        match find_first_underscore(&cs) {
            Some(i) => {
                proof {
                    lemma_first_underscore_from_found(cs@, 0);
                }
                let pre = slice_chars(&cs, 0, i);
                let suf = slice_chars(&cs, i + 1, cs.len());
                assert(pre@ =~= cs@.take(i as int));
                assert(suf@ =~= cs@.skip(i + 1));
                Ok(FilenameParts {
                    prefix: string_of(pre.as_slice()),
                    suffix: string_of(suf.as_slice()),
                    path: String::from_str(file),
                    file_extension: ext,
                    modified: false,
                })
            },
            None => {
                let m = String::from_str(
                    "Filename does not contain '_' to split into prefix and suffix",
                );
                Err(ImageMappingError::InvalidFilename(String::from_str(file), m))
            },
        }
    }

    /// The path the file is renamed to when saved: when the parts are
    /// modified, the current path with its file name rebuilt from prefix,
    /// suffix and extension, unless that is the current path.
    pub fn rename_target(&self) -> (r: Option<String>)
        ensures
            match r {
                Some(t) => rename_target_of(*self) == Some(t@),
                None => rename_target_of(*self) is None,
            },
    {
        if self.modified {
            let name = self.construct_new_filename(self.prefix.as_str());
            let target = with_file_name(self.path.as_str(), name.as_str());
            if same_path(target.as_str(), self.path.as_str()) {
                None
            } else {
                Some(target)
            }
        } else {
            None
        }
    }

    /// Records that the file was saved: it now lives at its rename target,
    /// if it had one, and is no longer modified.
    pub fn mark_saved(&mut self)
        ensures
            match rename_target_of(*old(self)) {
                Some(t) => final(self).path@ == t,
                None => final(self).path == old(self).path,
            },
            !final(self).modified,
            final(self).prefix == old(self).prefix,
            final(self).suffix == old(self).suffix,
            final(self).file_extension == old(self).file_extension,
    {
        if let Some(t) = self.rename_target() {
            self.path = t;
        }
        self.modified = false;
    }

    /// Checks the suffix for an underscore after the first digit and cuts it
    /// there, then keeps only its digits, then pads it with zeros on the
    /// left to a multiple of four characters. Marks the parts as modified
    /// when the suffix changed.
    pub fn check_suffix(&mut self) -> (r: Result<(), ImageMappingError>)
        ensures
            r is Ok,
            final(self).suffix@ == normalized_suffix(old(self).suffix@),
            final(self).modified == (old(self).modified || final(self).suffix@ != old(self).suffix@),
            final(self).prefix == old(self).prefix,
            final(self).path == old(self).path,
            final(self).file_extension == old(self).file_extension,
    {
        let cs = chars_of(self.suffix.as_str());
        let cut = cut_after_first_digit_exec(&cs);
        let digits = keep_digits_exec(&cut);
        let padded = pad_to_four_exec(&digits);
        let ghost old_suffix = self.suffix@;
        let changed = !vec_chars_eq(&padded, &cs);
        if changed {
            self.suffix = string_of(padded.as_slice());
            self.modified = true;
        }
        Ok(())
    }

    /// Checks whether `new_prefix` differs from the prefix extracted from
    /// the file's path; if so, takes it as the prefix and marks the parts as
    /// modified. Fails when the path has no file stem.
    pub fn check_prefix(&mut self, new_prefix: &str) -> (r: Result<(), ImageMappingError>)
        ensures
            match r {
                Ok(()) => path_prefix(old(self).path@) is Some && if path_prefix(old(self).path@)
                    == Some(new_prefix@) {
                    *final(self) == *old(self)
                } else {
                    final(self).prefix@ == new_prefix@ && final(self).modified
                        && final(self).suffix == old(self).suffix && final(self).path == old(
                        self,
                    ).path && final(self).file_extension == old(self).file_extension
                },
                Err(e) => {
                    &&& path_prefix(old(self).path@) is None
                    &&& *final(self) == *old(self)
                    &&& e@ == MappingErrorView::InvalidFilename(
                        old(self).path@,
                        "Could not extract valid file stem"@,
                    )
                },
            },
    {
        let current = extract_prefix(self.path.as_str())?;
        if !str_eq(current.as_str(), new_prefix) {
            self.prefix = String::from_str(new_prefix);
            self.modified = true;
        }
        Ok(())
    }

    /// Whether prefix or suffix changed since the file was last saved.
    pub fn is_modified(&self) -> (r: bool)
        ensures
            r == self.modified,
    {
        self.modified
    }

    /// The file name made of `new_prefix`, the suffix and the extension:
    /// `{prefix}_{suffix}.{extension}`.
    pub fn construct_new_filename(&self, new_prefix: &str) -> (r: String)
        ensures
            r@ == filename_from_parts(new_prefix@, self.suffix@, self.file_extension@),
    {
        let mut s = String::from_str(new_prefix);
        s.append("_");
        s.append(self.suffix.as_str());
        s.append(".");
        s.append(self.file_extension.as_str());
        proof {
            reveal_strlit("_");
            reveal_strlit(".");
        }
        s
    }
}

/// Whether two character vectors are equal.
fn vec_chars_eq(a: &Vec<char>, b: &Vec<char>) -> (r: bool)
    ensures
        r == (a@ == b@),
{
    if a.len() != b.len() {
        return false;
    }
    let mut i: usize = 0;
    while i < a.len()
        invariant
            i <= a@.len(),
            a@.len() == b@.len(),
            forall|j: int| 0 <= j < i ==> a@[j] == b@[j],
        decreases a@.len() - i,
    {
        if a[i] != b[i] {
            return false;
        }
        i = i + 1;
    }
    assert(a@ =~= b@);
    true
}

/// Whether two strings are equal.
pub fn str_eq(a: &str, b: &str) -> (r: bool)
    ensures
        r == (a@ == b@),
{
    let x = chars_of(a);
    let y = chars_of(b);
    vec_chars_eq(&x, &y)
}

} // verus!
