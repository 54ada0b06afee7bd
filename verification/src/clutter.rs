//! Colour transfer with a CLUT image: checking the inputs and the
//! `convert` command run for each image.
use vstd::prelude::*;
use std::collections::BTreeMap;
use crate::paths::{file_name, join, path_file_name, path_join};
use crate::output::{concat, PathKind};
use crate::ordered::{entries_in_order, in_key_order};
use crate::filename_handling::{string_map_view, strings_view};

verus! {

/// The `convert` arguments that apply the CLUT `clut` to `input`, writing
/// `output`.
pub open spec fn clut_command(clut: Seq<char>, input: Seq<char>, output: Seq<char>) -> Seq<Seq<char>> {
    seq![clut, input, "-clut"@, output]
}

/// The application of the CLUT to one image.
#[derive(Debug)]
pub struct ClutJob {
    /// The image.
    pub input: String,
    /// Where the result goes: the output directory, under the image's name.
    pub output: String,
    /// The arguments given to `convert`.
    pub arguments: Vec<String>,
}

/// Whether every image in `files` has a file name.
pub open spec fn all_named(files: Map<u32, Seq<char>>) -> bool {
    forall|k: u32| files.contains_key(k) ==> (#[trigger] path_file_name(files[k])) is Some
}

/// `jobs` apply `clut` to the images of `files`, one job per image in
/// increasing frame order, writing into `output_dir`.
pub open spec fn clut_jobs_for(jobs: Seq<ClutJob>, files: Map<u32, Seq<char>>, clut: Seq<char>, output_dir: Seq<char>) -> bool {
    &&& jobs.len() == in_key_order(files).len()
    &&& forall|i: int| 0 <= i < jobs.len() ==> {
        &&& (#[trigger] jobs[i]).input@ == in_key_order(files)[i].1
        &&& jobs[i].output@ == path_join(output_dir, path_file_name(jobs[i].input@)->0)
        &&& strings_view(jobs[i].arguments@) == clut_command(clut, jobs[i].input@, jobs[i].output@)
    }
}

/// Applies a CLUT image to the images of a directory.
pub struct Clutter {
    input_directory: String,
    clut_image: String,
    input_files: BTreeMap<u32, String>,
    output_directory: String,
}

/// What a `Clutter` holds: the input directory, the CLUT image, the images
/// by frame number and the output directory.
pub struct ClutterView {
    pub input_directory: Seq<char>,
    pub clut_image: Seq<char>,
    pub input_files: Map<u32, Seq<char>>,
    pub output_directory: Seq<char>,
}

impl View for Clutter {
    type V = ClutterView;

    closed spec fn view(&self) -> ClutterView {
        ClutterView {
            input_directory: self.input_directory@,
            clut_image: self.clut_image@,
            input_files: string_map_view(self.input_files@),
            output_directory: self.output_directory@,
        }
    }
}

/// The result of applying the CLUT: the jobs, and the directory they write
/// into.
#[derive(Debug)]
pub struct ClutRun {
    pub jobs: Vec<ClutJob>,
    pub output_directory: String,
}

impl Clutter {
    /// Checks the inputs: the input must be a directory and the CLUT image a
    /// file.
    pub fn check_inputs(
        input_directory: &str,
        input_kind: PathKind,
        clut_image: &str,
        clut_kind: PathKind,
    ) -> (r: Result<(), String>)
        ensures
            input_kind != PathKind::Directory ==> (r matches Err(m) && m@ == "Input directory '"@
                + input_directory@ + "' does not exist or is not a directory"@),
            input_kind == PathKind::Directory && clut_kind != PathKind::File ==> (r matches Err(m)
                && m@ == "CLUT image '"@ + clut_image@ + "' does not exist or is not a file"@),
            input_kind == PathKind::Directory && clut_kind == PathKind::File ==> r is Ok,
    {
        if input_kind != PathKind::Directory {
            let m = concat("Input directory '", input_directory);
            return Err(concat(m.as_str(), "' does not exist or is not a directory"));
        }
        if clut_kind != PathKind::File {
            let m = concat("CLUT image '", clut_image);
            return Err(concat(m.as_str(), "' does not exist or is not a file"));
        }
        Ok(())
    }

    /// A clutter for the (resolved) input directory and CLUT image, writing
    /// into `output_directory`; no images are loaded yet.
    pub fn new(input_directory: String, clut_image: String, output_directory: String) -> (r: Clutter)
        ensures
            r@ == (ClutterView {
                input_directory: input_directory@,
                clut_image: clut_image@,
                input_files: Map::empty(),
                output_directory: output_directory@,
            }),
    {
        broadcast use vstd::std_specs::btree::group_btree_axioms;
        let r = Clutter { input_directory, clut_image, input_files: BTreeMap::new(), output_directory };
        assert(string_map_view(r.input_files@) =~= Map::empty());
        r
    }

    /// Takes the loaded images and gives the CLUT jobs for them, in frame
    /// order, with the output directory. Every image must have a file name.
    pub fn create_clut_images(&mut self, input_files: BTreeMap<u32, String>) -> (r: ClutRun)
        requires
            all_named(string_map_view(input_files@)),
        ensures
            final(self)@ == (ClutterView { input_files: string_map_view(input_files@), ..old(self)@ }),
            r.output_directory@ == old(self)@.output_directory,
            clut_jobs_for(r.jobs@, string_map_view(input_files@), old(self)@.clut_image, old(self)@.output_directory),
    {
        let entries = entries_in_order(&input_files);
        let ghost ev = crate::ordered::entries_view(entries@);
        let ghost files = string_map_view(input_files@);
        let mut jobs: Vec<ClutJob> = Vec::new();
        let mut i: usize = 0;
        while i < entries.len()
            invariant
                i <= entries@.len(),
                ev == crate::ordered::entries_view(entries@),
                ev == in_key_order(files),
                crate::ordered::lists_in_order(ev, files),
                all_named(files),
                jobs@.len() == i,
                forall|j: int| 0 <= j < i ==> {
                    &&& (#[trigger] jobs@[j]).input@ == ev[j].1
                    &&& jobs@[j].output@ == path_join(self.output_directory@, path_file_name(jobs@[j].input@)->0)
                    &&& strings_view(jobs@[j].arguments@) == clut_command(self.clut_image@, jobs@[j].input@, jobs@[j].output@)
                },
            decreases entries@.len() - i,
        {
            let input = &entries[i].1;
            assert(files.contains_key(ev[i as int].0));
            let name = match file_name(input.as_str()) {
                Some(n) => n,
                None => {
                    proof {
                        assert(path_file_name(files[ev[i as int].0]) is Some);
                    }
                    String::new()
                },
            };
            let output = join(self.output_directory.as_str(), name.as_str());
            let mut arguments: Vec<String> = Vec::new();
            arguments.push(self.clut_image.clone());
            arguments.push(input.clone());
            arguments.push(String::from_str("-clut"));
            arguments.push(output.clone());
            assert(strings_view(arguments@) =~= clut_command(self.clut_image@, input@, output@));
            jobs.push(ClutJob { input: input.clone(), output, arguments });
            i = i + 1;
        }
        self.input_files = input_files;
        ClutRun { jobs, output_directory: self.output_directory.clone() }
    }

    /// Like `create_clut_images`, after checking that every image has a file
    /// name; when one has none, nothing changes and there is no run.
    pub fn try_create_clut_images(&mut self, input_files: BTreeMap<u32, String>) -> (r: Option<ClutRun>)
        ensures
            all_named(string_map_view(input_files@)) ==> (r matches Some(run)
                && final(self)@ == (ClutterView { input_files: string_map_view(input_files@), ..old(self)@ })
                && run.output_directory@ == old(self)@.output_directory
                && clut_jobs_for(run.jobs@, string_map_view(input_files@), old(self)@.clut_image, old(self)@.output_directory)),
            !all_named(string_map_view(input_files@)) ==> r is None && final(self)@ == old(self)@,
    {
        let entries = entries_in_order(&input_files);
        let ghost ev = crate::ordered::entries_view(entries@);
        let ghost files = string_map_view(input_files@);
        let mut i: usize = 0;
        while i < entries.len()
            invariant
                i <= entries@.len(),
                ev == crate::ordered::entries_view(entries@),
                crate::ordered::lists_in_order(ev, files),
                files == string_map_view(input_files@),
                forall|j: int| 0 <= j < i ==> (#[trigger] path_file_name(ev[j].1)) is Some,
            decreases entries@.len() - i,
        {
            if file_name(entries[i].1.as_str()).is_none() {
                assert(files.contains_key(ev[i as int].0) && files[ev[i as int].0] == ev[i as int].1);
                assert(!all_named(files));
                return None;
            }
            i = i + 1;
        }
        assert forall|k: u32| files.contains_key(k) implies (#[trigger] path_file_name(files[k])) is Some by {
            let j = choose|j: int| 0 <= j < ev.len() && #[trigger] ev[j].0 == k;
            assert(path_file_name(ev[j].1) is Some);
        }
        Some(self.create_clut_images(input_files))
    }

    /// The images by frame number, as last loaded.
    pub fn input_files(&self) -> (r: &BTreeMap<u32, String>)
        ensures
            string_map_view(r@) == self@.input_files,
    {
        &self.input_files
    }
}

} // verus!
