//! Where each mode writes its output: explicit directories and files, and
//! automatically named ones next to the input, made unique with a counter.
use vstd::prelude::*;
use crate::modes::Modes;
use crate::text::{decimal, decimal_string};
use crate::paths::{
    file_name, file_stem, join, parent, path_file_name, path_file_stem, path_join, path_parent,
};

verus! {

/// What a path names in the file system.
#[derive(Debug, Clone, Copy, PartialEq, Eq, Structural)]
pub enum PathKind {
    Missing,
    Directory,
    File,
    /// Something that exists but is neither a file nor a directory.
    Other,
}

/// The views of an optional string.
pub open spec fn opt_view(o: Option<String>) -> Option<Seq<char>> {
    match o {
        Some(s) => Some(s@),
        None => None,
    }
}

/// `o`, or `input` when there is none.
pub open spec fn or_input(o: Option<Seq<char>>) -> Seq<char> {
    match o {
        Some(s) => s,
        None => "input"@,
    }
}

/// The parent of a path, or `.` when it has none.
pub open spec fn parent_or_dot(p: Seq<char>) -> Seq<char> {
    match path_parent(p) {
        Some(d) => d,
        None => "."@,
    }
}

/// The `k`-th name tried for a fresh entry called `base`: `base` itself,
/// then `base_1`, `base_2`, and so on.
pub open spec fn counted_name(base: Seq<char>, k: nat) -> Seq<char> {
    if k == 0 {
        base
    } else {
        base + "_"@ + decimal(k)
    }
}

/// The names tried for a fresh entry never repeat: different counters give
/// different names, so the search for a free name tries each name once.
pub proof fn law_counted_names_distinct(base: Seq<char>, i: nat, j: nat)
    requires
        i != j,
    ensures
        counted_name(base, i) != counted_name(base, j),
{
    let m = if i <= j { j } else { i };
    crate::text::law_decimal_round_trip(i, m);
    crate::text::law_decimal_round_trip(j, m);
    if i > 0 && j > 0 {
        crate::text::law_decimal_injective(i, j);
        let p = base + "_"@;
        if counted_name(base, i) == counted_name(base, j) {
            assert((p + decimal(i)).skip(p.len() as int) =~= decimal(i));
            assert((p + decimal(j)).skip(p.len() as int) =~= decimal(j));
        }
    }
}

/// What a mode needs done to create its output.
#[derive(Debug)]
pub enum OutputRequest {
    /// Create this directory with its parents and use it.
    ExplicitDirectory(String),
    /// Create a fresh directory in `parent`: the first of the names
    /// `counted_name(base, 0)`, `counted_name(base, 1)`, ... that does not
    /// exist yet.
    UniqueDirectory { parent: String, base: String },
    /// Prepare the sampler's explicit target, a file or a directory as the
    /// number of frames to sample decides.
    SamplerTarget { path: String, sampling_number: usize },
    /// Prepare the clipper's explicit output, a file or a file inside a
    /// directory.
    ClipperExplicit { output: String, mp3_path: Option<String>, input_dir: String },
    /// Use a fresh `.mp4` file in `dir`: the first of the stems
    /// `counted_name(stem, 0)`, `counted_name(stem, 1)`, ... whose file does
    /// not exist yet.
    ClipperFile { dir: String, stem: String },
    /// The output cannot be created, for the reason given.
    Failed(String),
}

/// An `OutputRequest` with its strings taken as character sequences.
pub enum OutputRequestView {
    ExplicitDirectory(Seq<char>),
    UniqueDirectory { parent: Seq<char>, base: Seq<char> },
    SamplerTarget { path: Seq<char>, sampling_number: usize },
    ClipperExplicit { output: Seq<char>, mp3_path: Option<Seq<char>>, input_dir: Seq<char> },
    ClipperFile { dir: Seq<char>, stem: Seq<char> },
    Failed(Seq<char>),
}

impl View for OutputRequest {
    type V = OutputRequestView;

    open spec fn view(&self) -> OutputRequestView {
        match self {
            OutputRequest::ExplicitDirectory(d) => OutputRequestView::ExplicitDirectory(d@),
            OutputRequest::UniqueDirectory { parent, base } => OutputRequestView::UniqueDirectory {
                parent: parent@,
                base: base@,
            },
            OutputRequest::SamplerTarget { path, sampling_number } => OutputRequestView::SamplerTarget {
                path: path@,
                sampling_number: *sampling_number,
            },
            OutputRequest::ClipperExplicit { output, mp3_path, input_dir } => OutputRequestView::ClipperExplicit {
                output: output@,
                mp3_path: opt_view(*mp3_path),
                input_dir: input_dir@,
            },
            OutputRequest::ClipperFile { dir, stem } => OutputRequestView::ClipperFile {
                dir: dir@,
                stem: stem@,
            },
            OutputRequest::Failed(m) => OutputRequestView::Failed(m@),
        }
    }
}

/// Creation of the output of a mode.
pub trait ModeOutput {
    type Parameters;

    /// What must be done to create the output for `input`.
    fn create_output(&self, input: Self::Parameters) -> OutputRequest;
}

/// All possible outputs, one per mode.
pub enum Output {
    Exporter(ExporterOutput),
    Sampler(SamplerOutput),
    Merger(MergerOutput),
    Clutter(ClutterOutput),
    Gmicer(GmicerOutput),
    Clipper(ClipperOutput),
}

/// The output of a mode.
pub open spec fn output_of_mode(mode: Modes) -> Output {
    match mode {
        Modes::Exporter => Output::Exporter(ExporterOutput),
        Modes::Merger => Output::Merger(MergerOutput),
        Modes::Sampler => Output::Sampler(SamplerOutput),
        Modes::Clutter => Output::Clutter(ClutterOutput),
        Modes::Clipper => Output::Clipper(ClipperOutput),
        Modes::Gmicer => Output::Gmicer(GmicerOutput),
    }
}

impl From<Modes> for Output {
    fn from(mode: Modes) -> (r: Self) {
        match mode {
            Modes::Exporter => Output::Exporter(ExporterOutput),
            Modes::Merger => Output::Merger(MergerOutput),
            Modes::Sampler => Output::Sampler(SamplerOutput),
            Modes::Clutter => Output::Clutter(ClutterOutput),
            Modes::Clipper => Output::Clipper(ClipperOutput),
            Modes::Gmicer => Output::Gmicer(GmicerOutput),
        }
    }
}

impl vstd::std_specs::convert::FromSpecImpl<Modes> for Output {
    open spec fn obeys_from_spec() -> bool {
        true
    }

    open spec fn from_spec(mode: Modes) -> Output {
        output_of_mode(mode)
    }
}

/// Output of the exporter: a directory of frames.
pub struct ExporterOutput;

/// Output of the sampler: a file or a directory of sampled frames.
pub struct SamplerOutput;

/// Output of the merger: a directory of merged images.
pub struct MergerOutput;

/// Output of the clutter: a directory of images with the CLUT applied.
pub struct ClutterOutput;

/// Output of the GMIC runner: a directory of processed images.
pub struct GmicerOutput;

/// Output of the clipper: a video file.
pub struct ClipperOutput;

/// `a` followed by `b`.
pub fn concat(a: &str, b: &str) -> (r: String)
    ensures
        r@ == a@ + b@,
{
    let mut s = String::from_str(a);
    s.append(b);
    s
}

/// The file name of a path, or `input` when it has none.
pub fn file_name_or_input(p: &str) -> (r: String)
    ensures
        r@ == or_input(path_file_name(p@)),
{
    match file_name(p) {
        Some(n) => n,
        None => {
            proof {
                reveal_strlit("input");
            }
            String::from_str("input")
        },
    }
}

/// The file stem of a path, or `input` when it has none.
pub fn file_stem_or_input(p: &str) -> (r: String)
    ensures
        r@ == or_input(path_file_stem(p@)),
{
    match file_stem(p) {
        Some(n) => n,
        None => String::from_str("input"),
    }
}

/// The parent of a path, or `.` when it has none.
pub fn parent_or_current(p: &str) -> (r: String)
    ensures
        r@ == parent_or_dot(p@),
{
    match parent(p) {
        Some(d) => d,
        None => String::from_str("."),
    }
}

/// The `k`-th name tried for a fresh entry called `base`.
pub fn counted_name_exec(base: &str, k: u64) -> (r: String)
    ensures
        r@ == counted_name(base@, k as nat),
{
    if k == 0 {
        String::from_str(base)
    } else {
        let mut s = String::from_str(base);
        s.append("_");
        s.append(decimal_string(k).as_str());
        s
    }
}

/// One step of the search for a free numbered name.
#[derive(Debug, PartialEq, Eq, Structural)]
pub enum SearchStep {
    /// Candidate `k` is free: it is taken.
    Take(u64),
    /// The candidate is taken: the search goes on with this one.
    Next(u64),
}

/// The first free candidate at or after `start`, given which candidates
/// are taken; `None` when all of them that are known are taken.
pub open spec fn first_free_from(taken: Seq<bool>, start: nat) -> Option<nat>
    decreases taken.len() - start,
{
    if start >= taken.len() {
        None
    } else if !taken[start as int] {
        Some(start)
    } else {
        first_free_from(taken, start + 1)
    }
}

/// The search for a free name, one candidate at a time: candidate `k` is
/// taken when it is free, else the search moves on to `k + 1`.
pub fn search_step(k: u64, taken: bool) -> (r: SearchStep)
    requires
        k < u64::MAX,
    ensures
        r == (if taken { SearchStep::Next((k + 1) as u64) } else { SearchStep::Take(k) }),
{
    if taken {
        SearchStep::Next(k + 1)
    } else {
        SearchStep::Take(k)
    }
}

/// The search that starts at candidate zero and follows `search_step` takes
/// the least free candidate: the one it reaches from `start` is free, and
/// every candidate before it from `start` on is taken.
pub proof fn law_search_takes_least_free(taken: Seq<bool>, start: nat)
    ensures
        first_free_from(taken, start) matches Some(k) ==> start <= k < taken.len() && !taken[k as int]
            && forall|j: int| start <= j < k ==> #[trigger] taken[j],
        first_free_from(taken, start) is None ==> forall|j: int| start <= j < taken.len() ==> #[trigger] taken[j],
    decreases taken.len() - start,
{
    if start < taken.len() && taken[start as int] {
        law_search_takes_least_free(taken, start + 1);
    }
}

/// The `k`-th candidate for a fresh directory called `base` in `parent`.
pub fn unique_dir_candidate(parent: &str, base: &str, k: u64) -> (r: String)
    ensures
        r@ == path_join(parent@, counted_name(base@, k as nat)),
{
    let name = counted_name_exec(base, k);
    join(parent, name.as_str())
}

/// The `k`-th candidate for a fresh `.mp4` file with stem `stem` in `dir`:
/// the stem, or the stem with `_k` appended, followed by `.mp4`. The
/// extension is appended, so a stem with a dot in it keeps all of it.
pub fn clipper_file_candidate(dir: &str, stem: &str, k: u64) -> (r: String)
    ensures
        r@ == path_join(dir@, counted_name(stem@, k as nat) + ".mp4"@),
{
    let name = counted_name_exec(stem, k);
    let file = concat(name.as_str(), ".mp4");
    join(dir, file.as_str())
}

/// The request for a directory named `{name}{tail}` next to `input`, where
/// `name` is the input's file name, or `input` when it has none.
pub open spec fn named_dir_request(input: Seq<char>, name: Seq<char>, tail: Seq<char>) -> OutputRequestView {
    OutputRequestView::UniqueDirectory { parent: parent_or_dot(input), base: name + tail }
}

impl ModeOutput for ExporterOutput {
    /// The input video and an optional explicit output directory.
    type Parameters = (String, Option<String>);

    /// The explicit directory if given; else a fresh directory next to the
    /// video named after its file stem: `{stem}_original_frames`.
    fn create_output(&self, input: Self::Parameters) -> (r: OutputRequest)
        ensures
            r@ == match input.1 {
                Some(d) => OutputRequestView::ExplicitDirectory(d@),
                None => named_dir_request(input.0@, or_input(path_file_stem(input.0@)), "_original_frames"@),
            },
    {
        let (input_path, output_directory) = input;
        match output_directory {
            Some(dir) => OutputRequest::ExplicitDirectory(dir),
            None => {
                let stem = file_stem_or_input(input_path.as_str());
                OutputRequest::UniqueDirectory {
                    parent: parent_or_current(input_path.as_str()),
                    base: concat(stem.as_str(), "_original_frames"),
                }
            },
        }
    }
}

impl ModeOutput for ClutterOutput {
    /// The input directory and an optional explicit output directory.
    type Parameters = (String, Option<String>);

    /// The explicit directory if given; else a fresh directory next to the
    /// input named `{name}_clutted`.
    fn create_output(&self, input: Self::Parameters) -> (r: OutputRequest)
        ensures
            r@ == match input.1 {
                Some(d) => OutputRequestView::ExplicitDirectory(d@),
                None => named_dir_request(input.0@, or_input(path_file_name(input.0@)), "_clutted"@),
            },
    {
        let (input_path, output_directory) = input;
        match output_directory {
            Some(dir) => OutputRequest::ExplicitDirectory(dir),
            None => {
                let name = file_name_or_input(input_path.as_str());
                OutputRequest::UniqueDirectory {
                    parent: parent_or_current(input_path.as_str()),
                    base: concat(name.as_str(), "_clutted"),
                }
            },
        }
    }
}

impl ModeOutput for MergerOutput {
    /// The first input directory, an optional explicit output directory and
    /// the merge value as it is displayed.
    type Parameters = (String, Option<String>, String);

    /// The explicit directory if given; else a fresh directory next to the
    /// first input named `{name}_merged_{merge_value}`.
    fn create_output(&self, input: Self::Parameters) -> (r: OutputRequest)
        ensures
            r@ == match input.1 {
                Some(d) => OutputRequestView::ExplicitDirectory(d@),
                None => named_dir_request(
                    input.0@,
                    or_input(path_file_name(input.0@)),
                    "_merged_"@ + input.2@,
                ),
            },
    {
        let (input_path, output_directory, merge_value) = input;
        match output_directory {
            Some(dir) => OutputRequest::ExplicitDirectory(dir),
            None => {
                let name = file_name_or_input(input_path.as_str());
                let tail = concat("_merged_", merge_value.as_str());
                OutputRequest::UniqueDirectory {
                    parent: parent_or_current(input_path.as_str()),
                    base: concat(name.as_str(), tail.as_str()),
                }
            },
        }
    }
}

impl ModeOutput for GmicerOutput {
    /// The input directory, the GMIC arguments and an optional explicit
    /// output directory.
    type Parameters = (String, Vec<String>, Option<String>);

    /// The explicit directory if given; else a fresh directory next to the
    /// input named `{name}_{first GMIC argument}`, which fails when there
    /// are no GMIC arguments.
    fn create_output(&self, input: Self::Parameters) -> (r: OutputRequest)
        ensures
            r@ == match input.2 {
                Some(d) => OutputRequestView::ExplicitDirectory(d@),
                None => if input.1@.len() == 0 {
                    OutputRequestView::Failed("GMIC arguments should not be empty"@)
                } else {
                    named_dir_request(
                        input.0@,
                        or_input(path_file_name(input.0@)),
                        "_"@ + input.1@[0]@,
                    )
                },
            },
    {
        let (input_path, gmic_args, output_directory) = input;
        match output_directory {
            Some(dir) => OutputRequest::ExplicitDirectory(dir),
            None => {
                if gmic_args.len() == 0 {
                    return OutputRequest::Failed(String::from_str("GMIC arguments should not be empty"));
                }
                let name = file_name_or_input(input_path.as_str());
                let tail = concat("_", gmic_args[0].as_str());
                OutputRequest::UniqueDirectory {
                    parent: parent_or_current(input_path.as_str()),
                    base: concat(name.as_str(), tail.as_str()),
                }
            },
        }
    }
}

impl ModeOutput for SamplerOutput {
    /// The input video, an optional explicit target and the number of frames
    /// to sample.
    type Parameters = (String, Option<String>, usize);

    /// The explicit target if given; else a fresh directory `sample_frames`
    /// next to the video.
    fn create_output(&self, input: Self::Parameters) -> (r: OutputRequest)
        ensures
            r@ == match input.1 {
                Some(d) => OutputRequestView::SamplerTarget { path: d@, sampling_number: input.2 },
                None => OutputRequestView::UniqueDirectory {
                    parent: parent_or_dot(input.0@),
                    base: "sample_frames"@,
                },
            },
    {
        let (input_path, output_directory, sampling_number) = input;
        match output_directory {
            Some(dir) => OutputRequest::SamplerTarget { path: dir, sampling_number },
            None => OutputRequest::UniqueDirectory {
                parent: parent_or_current(input_path.as_str()),
                base: String::from_str("sample_frames"),
            },
        }
    }
}

/// Where the clipper's video goes when no output is given: next to the MP3
/// file, named after its stem, if there is one; else next to the input
/// directory, named after it.
pub open spec fn clipper_auto_request(input_dir: Seq<char>, mp3_path: Option<Seq<char>>) -> OutputRequestView {
    match mp3_path {
        Some(mp3) => OutputRequestView::ClipperFile {
            dir: parent_or_dot(mp3),
            stem: or_input(path_file_stem(mp3)),
        },
        None => OutputRequestView::ClipperFile {
            dir: parent_or_dot(input_dir),
            stem: or_input(path_file_name(input_dir)),
        },
    }
}

impl ModeOutput for ClipperOutput {
    /// The input directory, an optional MP3 file and an optional explicit
    /// output.
    type Parameters = (String, Option<String>, Option<String>);

    /// The explicit output if given; else a fresh `.mp4` file next to the
    /// MP3 file or the input directory.
    fn create_output(&self, input: Self::Parameters) -> (r: OutputRequest)
        ensures
            r@ == match input.2 {
                Some(o) => OutputRequestView::ClipperExplicit {
                    output: o@,
                    mp3_path: opt_view(input.1),
                    input_dir: input.0@,
                },
                None => clipper_auto_request(input.0@, opt_view(input.1)),
            },
    {
        let (input_path, mp3_path, output_path) = input;
        match output_path {
            Some(o) => OutputRequest::ClipperExplicit { output: o, mp3_path, input_dir: input_path },
            None => match mp3_path {
                Some(mp3) => OutputRequest::ClipperFile {
                    dir: parent_or_current(mp3.as_str()),
                    stem: file_stem_or_input(mp3.as_str()),
                },
                None => OutputRequest::ClipperFile {
                    dir: parent_or_current(input_path.as_str()),
                    stem: file_name_or_input(input_path.as_str()),
                },
            },
        }
    }
}


/// How the sampler's explicit target is prepared.
#[derive(Debug)]
pub enum SamplerTargetPlan {
    /// The target names a directory and one frame is sampled: the frame goes
    /// to this file inside it, which replaces an existing file of that name.
    FileInDirectory(String),
    /// The target is an existing file: it is removed and created anew.
    ReplaceFile(String),
    /// The target does not exist: its parent directory, if it has one, is
    /// created, then the file.
    NewFile { path: String, parent: Option<String> },
    /// Something that is neither file nor directory exists at the target: the
    /// file is created there.
    CreateFile(String),
    /// Several frames are sampled: an existing file at the target is removed
    /// when `remove_file` holds, then the directory is created with its
    /// parents.
    Directory { path: String, remove_file: bool },
}

/// A `SamplerTargetPlan` with its strings taken as character sequences.
pub enum SamplerTargetPlanView {
    FileInDirectory(Seq<char>),
    ReplaceFile(Seq<char>),
    NewFile { path: Seq<char>, parent: Option<Seq<char>> },
    CreateFile(Seq<char>),
    Directory { path: Seq<char>, remove_file: bool },
}

impl View for SamplerTargetPlan {
    type V = SamplerTargetPlanView;

    open spec fn view(&self) -> SamplerTargetPlanView {
        match self {
            SamplerTargetPlan::FileInDirectory(p) => SamplerTargetPlanView::FileInDirectory(p@),
            SamplerTargetPlan::ReplaceFile(p) => SamplerTargetPlanView::ReplaceFile(p@),
            SamplerTargetPlan::NewFile { path, parent } => SamplerTargetPlanView::NewFile {
                path: path@,
                parent: opt_view(*parent),
            },
            SamplerTargetPlan::CreateFile(p) => SamplerTargetPlanView::CreateFile(p@),
            SamplerTargetPlan::Directory { path, remove_file } => SamplerTargetPlanView::Directory {
                path: path@,
                remove_file: *remove_file,
            },
        }
    }
}

/// How the sampler's explicit target `path` is prepared: when one frame is
/// sampled the target is a file (inside it, named `output_file`, when it
/// is a directory); otherwise it is a directory.
pub open spec fn sampler_target_plan(path: Seq<char>, sampling_number: usize, kind: PathKind) -> SamplerTargetPlanView {
    if sampling_number == 1 {
        match kind {
            PathKind::Directory => SamplerTargetPlanView::FileInDirectory(
                path_join(path, "output_file"@),
            ),
            PathKind::File => SamplerTargetPlanView::ReplaceFile(path),
            PathKind::Missing => SamplerTargetPlanView::NewFile { path, parent: path_parent(path) },
            PathKind::Other => SamplerTargetPlanView::CreateFile(path),
        }
    } else {
        SamplerTargetPlanView::Directory { path, remove_file: kind == PathKind::File }
    }
}

impl SamplerOutput {
    /// How the explicit target `path`, which is of kind `kind`, is prepared
    /// for sampling `sampling_number` frames.
    pub fn explicit_target(&self, path: &str, sampling_number: usize, kind: PathKind) -> (r: SamplerTargetPlan)
        ensures
            r@ == sampler_target_plan(path@, sampling_number, kind),
    {
        if sampling_number == 1 {
            match kind {
                PathKind::Directory => SamplerTargetPlan::FileInDirectory(join(path, "output_file")),
                PathKind::File => SamplerTargetPlan::ReplaceFile(String::from_str(path)),
                PathKind::Missing => SamplerTargetPlan::NewFile {
                    path: String::from_str(path),
                    parent: parent(path),
                },
                PathKind::Other => SamplerTargetPlan::CreateFile(String::from_str(path)),
            }
        } else {
            SamplerTargetPlan::Directory {
                path: String::from_str(path),
                remove_file: kind == PathKind::File,
            }
        }
    }
}

/// The clipper's explicit output file: `output` itself unless it is an
/// existing directory; then a file inside it named after the MP3 file's stem,
/// or when there is no MP3 file after the input directory, with `.mp4`
/// appended. Fails when that stem or name is missing.
pub open spec fn clipper_explicit_file(
    output: Seq<char>,
    mp3_path: Option<Seq<char>>,
    input_dir: Seq<char>,
    output_is_dir: bool,
) -> Result<Seq<char>, Seq<char>> {
    if !output_is_dir {
        Ok(output)
    } else {
        match mp3_path {
            Some(mp3) => match path_file_stem(mp3) {
                Some(stem) => Ok(path_join(output, stem + ".mp4"@)),
                None => Err("MP3 path does not have a valid file stem"@),
            },
            None => match path_file_name(input_dir) {
                Some(name) => Ok(path_join(output, name + ".mp4"@)),
                None => Err("Input directory does not have a valid file name"@),
            },
        }
    }
}

impl ClipperOutput {
    /// The clipper's explicit output file, given whether `output` is an
    /// existing directory. An existing file there is replaced by the caller.
    pub fn explicit_output_file(
        &self,
        output: &str,
        mp3_path: Option<String>,
        input_dir: &str,
        output_is_dir: bool,
    ) -> (r: Result<String, String>)
        ensures
            match clipper_explicit_file(output@, opt_view(mp3_path), input_dir@, output_is_dir) {
                Ok(p) => r matches Ok(rp) && rp@ == p,
                Err(m) => r matches Err(rm) && rm@ == m,
            },
    {
        if !output_is_dir {
            return Ok(String::from_str(output));
        }
        match mp3_path {
            Some(mp3) => match file_stem(mp3.as_str()) {
                Some(stem) => {
                    let name = concat(stem.as_str(), ".mp4");
                    Ok(join(output, name.as_str()))
                },
                None => Err(String::from_str("MP3 path does not have a valid file stem")),
            },
            None => match file_name(input_dir) {
                Some(n) => {
                    let name = concat(n.as_str(), ".mp4");
                    Ok(join(output, name.as_str()))
                },
                None => Err(String::from_str("Input directory does not have a valid file name")),
            },
        }
    }
}

} // verus!
