//! GMIC processing: where the processed images go, the command run for each
//! image, and the numbers reported when GMIC wrote several images per input.
use vstd::prelude::*;
use std::collections::BTreeMap;
use crate::text::{all_digits, chars_of, decimal, digits_value, law_zero_padded_decimal, slice_chars, string_of, zero_pad, zero_padded_decimal};
use crate::paths::{extension, join, path_extension, path_file_name, path_join};
use crate::output::{concat, file_name_or_input, or_input, parent_or_current, parent_or_dot};
use crate::random::{generate_random_name, is_ascii_alphanumeric, suffixed};
use crate::ordered::{entries_in_order, in_key_order};
use crate::filename_handling::{string_map_view, strings_view, LoadOutcome};
use crate::filename_parts::{
    find_underscore_from, first_underscore, first_underscore_from, mapping_error_message, ImageMappingError,
    MappingErrorView,
};

verus! {

/// How the GMIC output directory is to be made.
#[derive(Debug)]
pub enum GmicOutputPlan {
    /// Remove this directory if it exists, then create it.
    Replace(String),
    /// Create a fresh directory in `parent`, named `base` followed by two
    /// random ASCII letters or digits, drawing again while the name is taken.
    Random { parent: String, base: String },
    /// The directory cannot be made, for the reason given.
    Failed(String),
}

/// A `GmicOutputPlan` with its strings taken as character sequences.
pub enum GmicOutputPlanView {
    Replace(Seq<char>),
    Random { parent: Seq<char>, base: Seq<char> },
    Failed(Seq<char>),
}

impl View for GmicOutputPlan {
    type V = GmicOutputPlanView;

    open spec fn view(&self) -> GmicOutputPlanView {
        match self {
            GmicOutputPlan::Replace(d) => GmicOutputPlanView::Replace(d@),
            GmicOutputPlan::Random { parent, base } => GmicOutputPlanView::Random {
                parent: parent@,
                base: base@,
            },
            GmicOutputPlan::Failed(m) => GmicOutputPlanView::Failed(m@),
        }
    }
}

/// The output directory for GMIC: the given one, replaced if it exists;
/// else a fresh directory next to the input named after the input and the
/// first GMIC argument, with a random two-character ending. Without an
/// output directory and without GMIC arguments there is none.
pub fn create_output_directory(
    input_path: &str,
    gmic_args: &Vec<String>,
    output_directory: Option<String>,
) -> (r: GmicOutputPlan)
    ensures
        r@ == match output_directory {
            Some(d) => GmicOutputPlanView::Replace(d@),
            None => if gmic_args@.len() == 0 {
                GmicOutputPlanView::Failed("GMIC arguments should not be empty"@)
            } else {
                GmicOutputPlanView::Random {
                    parent: parent_or_dot(input_path@),
                    base: or_input(path_file_name(input_path@)) + "_"@ + gmic_args@[0]@,
                }
            },
        },
{
    match output_directory {
        Some(dir) => GmicOutputPlan::Replace(dir),
        None => {
            if gmic_args.len() == 0 {
                return GmicOutputPlan::Failed(String::from_str("GMIC arguments should not be empty"));
            }
            let name = file_name_or_input(input_path);
            let with_sep = concat(name.as_str(), "_");
            GmicOutputPlan::Random {
                parent: parent_or_current(input_path),
                base: concat(with_sep.as_str(), gmic_args[0].as_str()),
            }
        },
    }
}

/// A candidate for the fresh directory of `GmicOutputPlan::Random`: `base`
/// with two random ASCII letters or digits appended, inside `parent`.
pub fn random_directory_candidate(parent: &str, base: &str) -> (r: String)
    ensures
        exists|c1: char, c2: char|
            is_ascii_alphanumeric(c1) && is_ascii_alphanumeric(c2) && r@ == path_join(parent@, #[trigger] suffixed(base@, c1, c2)),
{
    let name = generate_random_name(base);
    let ghost n = name@;
    let r = join(parent, name.as_str());
    assert(exists|c1: char, c2: char|
        is_ascii_alphanumeric(c1) && is_ascii_alphanumeric(c2) && r@ == path_join(parent@, #[trigger] suffixed(base@, c1, c2))) by {
        let (c1, c2) = choose|c1: char, c2: char|
            is_ascii_alphanumeric(c1) && is_ascii_alphanumeric(c2) && n == #[trigger] suffixed(base@, c1, c2);
        assert(r@ == path_join(parent@, suffixed(base@, c1, c2)));
    }
    r
}

/// The name GMIC writes the processed image number `number` under:
/// `image_` and the number padded to four digits, with the input's
/// extension, or `png` when it has none.
pub open spec fn gmic_output_name(number: u32, input: Seq<char>) -> Seq<char> {
    "image_"@ + zero_pad(decimal(number as nat), 4) + "."@ + match path_extension(input) {
        Some(e) => e,
        None => "png"@,
    }
}

/// Two digit strings followed by a dot and then anything are the same
/// string only if the digit strings are the same.
pub proof fn lemma_digits_before_dot(d1: Seq<char>, d2: Seq<char>, e1: Seq<char>, e2: Seq<char>)
    requires
        all_digits(d1),
        all_digits(d2),
        d1 + "."@ + e1 == d2 + "."@ + e2,
    ensures
        d1 == d2,
{
    reveal_strlit(".");
    let x = d1 + "."@ + e1;
    if d1.len() < d2.len() {
        assert(x[d1.len() as int] == '.');
        assert((d2 + "."@ + e2)[d1.len() as int] == d2[d1.len() as int]);
    } else if d2.len() < d1.len() {
        assert((d2 + "."@ + e2)[d2.len() as int] == '.');
        assert(x[d2.len() as int] == d1[d2.len() as int]);
    } else {
        assert forall|i: int| 0 <= i < d1.len() implies d1[i] == d2[i] by {
            assert(x[i] == d1[i]);
            assert((d2 + "."@ + e2)[i] == d2[i]);
        }
        assert(d1 =~= d2);
    }
}

/// The name GMIC writes image `number` under carries the number: it is
/// `image_`, a string of at least four digits that reads back as the
/// number, a dot and an extension. So images with different numbers are
/// written under different names, whatever their inputs.
pub proof fn law_gmic_output_name_carries_number(number: u32, other: u32, input: Seq<char>, other_input: Seq<char>)
    ensures
        exists|digits: Seq<char>, ext: Seq<char>| {
            &&& digits.len() >= 4
            &&& all_digits(digits)
            &&& digits_value(digits) == number
            &&& #[trigger] gmic_output_name(number, input) == "image_"@ + digits + "."@ + ext
        },
        number != other ==> gmic_output_name(number, input) != gmic_output_name(other, other_input),
{
    law_zero_padded_decimal(number as nat, 4);
    law_zero_padded_decimal(other as nat, 4);
    let d1 = zero_pad(decimal(number as nat), 4);
    let d2 = zero_pad(decimal(other as nat), 4);
    let e1 = match path_extension(input) { Some(e) => e, None => "png"@ };
    let e2 = match path_extension(other_input) { Some(e) => e, None => "png"@ };
    reveal_strlit("image_");
    assert(gmic_output_name(number, input) == "image_"@ + d1 + "."@ + e1);
    if number != other && gmic_output_name(number, input) == gmic_output_name(other, other_input) {
        let n1 = gmic_output_name(number, input);
        let n2 = gmic_output_name(other, other_input);
        assert(n1.skip(6) =~= d1 + "."@ + e1);
        assert(n2.skip(6) =~= d2 + "."@ + e2);
        lemma_digits_before_dot(d1, d2, e1, e2);
    }
}

/// Jobs for different frame numbers write under different names, each name
/// carrying its job's number.
pub proof fn law_gmic_jobs_distinct_outputs(
    jobs: Seq<GmicJob>,
    images: Map<u32, Seq<char>>,
    args: Seq<Seq<char>>,
    output_dir: Seq<char>,
)
    requires
        gmic_jobs_for(jobs, images, args, output_dir),
    ensures
        forall|i: int, j: int|
            0 <= i < jobs.len() && 0 <= j < jobs.len() && jobs[i].number != jobs[j].number ==> exists|a: Seq<char>, b: Seq<char>| {
                &&& #[trigger] jobs[i].output@ == path_join(output_dir, a)
                &&& #[trigger] jobs[j].output@ == path_join(output_dir, b)
                &&& a != b
            },
{
    assert forall|i: int, j: int|
        0 <= i < jobs.len() && 0 <= j < jobs.len() && jobs[i].number != jobs[j].number implies exists|a: Seq<char>, b: Seq<char>| {
            &&& #[trigger] jobs[i].output@ == path_join(output_dir, a)
            &&& #[trigger] jobs[j].output@ == path_join(output_dir, b)
            &&& a != b
        } by {
        law_gmic_output_name_carries_number(jobs[i].number, jobs[j].number, jobs[i].input@, jobs[j].input@);
        let a = gmic_output_name(jobs[i].number, jobs[i].input@);
        let b = gmic_output_name(jobs[j].number, jobs[j].input@);
        assert(jobs[i].output@ == path_join(output_dir, a));
        assert(jobs[j].output@ == path_join(output_dir, b));
    }
}

/// The GMIC command line for one image: the input, the GMIC arguments,
/// `-output` and the output.
pub open spec fn gmic_command(input: Seq<char>, args: Seq<Seq<char>>, output: Seq<char>) -> Seq<Seq<char>> {
    seq![input] + args + seq!["-output"@, output]
}

/// The processing of one image with GMIC.
#[derive(Debug)]
pub struct GmicJob {
    /// The image's frame number.
    pub number: u32,
    /// The image.
    pub input: String,
    /// Where the processed image goes.
    pub output: String,
    /// The arguments given to `gmic`.
    pub arguments: Vec<String>,
}

/// The frame numbers and inputs of a list of jobs.
pub open spec fn job_entries(jobs: Seq<GmicJob>) -> Seq<(u32, Seq<char>)> {
    jobs.map_values(|j: GmicJob| (j.number, j.input@))
}

/// `jobs` process the images of `images`, one job per image in increasing
/// frame order, each writing into `output_dir` with `args`.
pub open spec fn gmic_jobs_for(
    jobs: Seq<GmicJob>,
    images: Map<u32, Seq<char>>,
    args: Seq<Seq<char>>,
    output_dir: Seq<char>,
) -> bool {
    &&& job_entries(jobs) == in_key_order(images)
    &&& forall|i: int| 0 <= i < jobs.len() ==> {
        &&& (#[trigger] jobs[i]).output@ == path_join(output_dir, gmic_output_name(jobs[i].number, jobs[i].input@))
        &&& strings_view(jobs[i].arguments@) == gmic_command(jobs[i].input@, args, jobs[i].output@)
    }
}

/// The extension of a path, or `png` when it has none.
fn extension_or_png(p: &str) -> (r: String)
    ensures
        r@ == match path_extension(p@) {
            Some(e) => e,
            None => "png"@,
        },
{
    match extension(p) {
        Some(e) => e,
        None => String::from_str("png"),
    }
}

/// The job for image `number` at `input`.
fn gmic_job(number: u32, input: &String, args: &Vec<String>, output_dir: &str) -> (r: GmicJob)
    ensures
        r.number == number,
        r.input@ == input@,
        r.output@ == path_join(output_dir@, gmic_output_name(number, input@)),
        strings_view(r.arguments@) == gmic_command(input@, strings_view(args@), r.output@),
{
    let mut name = String::from_str("image_");
    name.append(zero_padded_decimal(number as u64, 4).as_str());
    name.append(".");
    name.append(extension_or_png(input.as_str()).as_str());
    let output = join(output_dir, name.as_str());
    let mut arguments: Vec<String> = Vec::new();
    arguments.push(input.clone());
    let mut i: usize = 0;
    while i < args.len()
        invariant
            i <= args@.len(),
            strings_view(arguments@) == seq![input@] + strings_view(args@).take(i as int),
        decreases args@.len() - i,
    {
        let ghost before = arguments@;
        arguments.push(args[i].clone());
        assert(strings_view(arguments@) =~= strings_view(before).push(args@[i as int]@));
        assert(strings_view(args@).take(i + 1) =~= strings_view(args@).take(i as int).push(args@[i as int]@));
        assert(strings_view(arguments@) =~= seq![input@] + strings_view(args@).take(i + 1));
        i = i + 1;
    }
    assert(strings_view(args@).take(args@.len() as int) =~= strings_view(args@));
    let ghost before = arguments@;
    arguments.push(String::from_str("-output"));
    arguments.push(output.clone());
    assert(strings_view(arguments@) =~= strings_view(before).push("-output"@).push(output@));
    assert(strings_view(arguments@) =~= gmic_command(input@, strings_view(args@), output@));
    GmicJob { number, input: input.clone(), output, arguments }
}

/// The GMIC jobs for `images`, writing into `output_directory`, which must
/// exist; there must be images.
pub fn image_processing(
    images: &BTreeMap<u32, String>,
    gmic_args: &Vec<String>,
    output_directory: &str,
    output_exists: bool,
) -> (r: Result<Vec<GmicJob>, String>)
    ensures
        !output_exists ==> (r matches Err(m) && m@ == "Error: The specified output directory does not exist."@),
        output_exists && images@.len() == 0 ==> (r matches Err(m) && m@ == "No valid images provided."@),
        output_exists && images@.len() > 0 ==> (r matches Ok(jobs)
            && gmic_jobs_for(jobs@, string_map_view(images@), strings_view(gmic_args@), output_directory@)),
{
    broadcast use vstd::std_specs::btree::group_btree_axioms;
    if !output_exists {
        return Err(String::from_str("Error: The specified output directory does not exist."));
    }
    if images.is_empty() {
        return Err(String::from_str("No valid images provided."));
    }
    let entries = entries_in_order(images);
    let ghost ev = crate::ordered::entries_view(entries@);
    let mut jobs: Vec<GmicJob> = Vec::new();
    let mut i: usize = 0;
    while i < entries.len()
        invariant
            i <= entries@.len(),
            ev == crate::ordered::entries_view(entries@),
            jobs@.len() == i,
            forall|j: int| 0 <= j < i ==> {
                &&& (#[trigger] jobs@[j]).number == ev[j].0
                &&& jobs@[j].input@ == ev[j].1
                &&& jobs@[j].output@ == path_join(output_directory@, gmic_output_name(jobs@[j].number, jobs@[j].input@))
                &&& strings_view(jobs@[j].arguments@) == gmic_command(jobs@[j].input@, strings_view(gmic_args@), jobs@[j].output@)
            },
        decreases entries@.len() - i,
    {
        let job = gmic_job(entries[i].0, &entries[i].1, gmic_args, output_directory);
        jobs.push(job);
        i = i + 1;
    }
    assert(job_entries(jobs@) =~= ev);
    Ok(jobs)
}

/// The index of the last `.` among the first `n` characters of `s`.
pub open spec fn last_dot_before(s: Seq<char>, n: int) -> Option<int>
    decreases n,
{
    if n <= 0 || n > s.len() {
        None
    } else if s[n - 1] == '.' {
        Some(n - 1)
    } else {
        last_dot_before(s, n - 1)
    }
}

/// The index of the last `.` of `s`.
pub open spec fn last_dot(s: Seq<char>) -> Option<int> {
    last_dot_before(s, s.len() as int)
}

/// The index of the second `_` of `s`.
pub open spec fn second_underscore(s: Seq<char>) -> Option<int> {
    match first_underscore(s) {
        Some(i) => first_underscore_from(s, i + 1),
        None => None,
    }
}

/// The number a GMIC output file name carries when GMIC wrote several
/// images for one input: the text between the second `_` and the last
/// `.`, when the dot comes after the underscore and the text is made of one
/// or more ASCII digits.
pub open spec fn output_number(name: Seq<char>) -> Option<Seq<char>> {
    match (second_underscore(name), last_dot(name)) {
        (Some(u), Some(d)) => if d < u {
            None
        } else {
            let c = name.subrange(u + 1, d);
            if c.len() > 0 && all_digits(c) {
                Some(c)
            } else {
                None
            }
        },
        _ => None,
    }
}

/// The index of the last `.` of `cs`.
fn find_last_dot(cs: &Vec<char>) -> (r: Option<usize>)
    ensures
        match r {
            Some(k) => last_dot(cs@) == Some(k as int) && k < cs@.len() && cs@[k as int] == '.',
            None => last_dot(cs@) is None,
        },
{
    let mut n: usize = cs.len();
    while n > 0
        invariant
            n <= cs@.len(),
            last_dot(cs@) == last_dot_before(cs@, n as int),
        decreases n,
    {
        if cs[n - 1] == '.' {
            return Some(n - 1);
        }
        n = n - 1;
    }
    None
}

/// The number carried by a GMIC output file name, if any.
pub fn output_number_of(name: &str) -> (r: Option<String>)
    ensures
        r.is_some() == output_number(name@).is_some(),
        r matches Some(c) ==> c@ == output_number(name@)->0,
{
    let cs = chars_of(name);
    let i = match find_underscore_from(&cs, 0) {
        None => return None,
        Some(i) => i,
    };
    let u = match find_underscore_from(&cs, i + 1) {
        None => return None,
        Some(u) => u,
    };
    let d = match find_last_dot(&cs) {
        None => return None,
        Some(d) => d,
    };
    if d < u {
        return None;
    }
    let c = slice_chars(&cs, u + 1, d);
    if c.len() == 0 {
        return None;
    }
    let ghost cv = name@.subrange(u + 1, d as int);
    assert(output_number(name@) == (if cv.len() > 0 && all_digits(cv) { Some(cv) } else { None }));
    let mut k: usize = 0;
    while k < c.len()
        invariant
            k <= c@.len(),
            c@ == cv,
            output_number(name@) == (if cv.len() > 0 && all_digits(cv) { Some(cv) } else { None }),
            forall|j: int| 0 <= j < k ==> crate::text::is_digit(#[trigger] c@[j]),
        decreases c@.len() - k,
    {
        if !('0' <= c[k] && c[k] <= '9') {
            assert(!crate::text::is_digit(c@[k as int]));
            return None;
        }
        k = k + 1;
    }
    assert(all_digits(c@));
    Some(string_of(c.as_slice()))
}

/// Strict lexicographic order of texts by character codes, the order of
/// `String`'s comparison.
pub open spec fn text_lt(a: Seq<char>, b: Seq<char>) -> bool
    decreases a.len(),
{
    if b.len() == 0 {
        false
    } else if a.len() == 0 {
        true
    } else if a[0] != b[0] {
        a[0] < b[0]
    } else {
        text_lt(a.drop_first(), b.drop_first())
    }
}

/// No text comes before itself.
pub proof fn lemma_text_lt_irreflexive(a: Seq<char>)
    ensures
        !text_lt(a, a),
    decreases a.len(),
{
    if a.len() > 0 {
        lemma_text_lt_irreflexive(a.drop_first());
    }
}

/// The order is transitive.
pub proof fn lemma_text_lt_transitive(a: Seq<char>, b: Seq<char>, c: Seq<char>)
    requires
        text_lt(a, b),
        text_lt(b, c),
    ensures
        text_lt(a, c),
    decreases a.len(),
{
    if a.len() > 0 && b.len() > 0 && c.len() > 0 && a[0] == b[0] && b[0] == c[0] {
        lemma_text_lt_transitive(a.drop_first(), b.drop_first(), c.drop_first());
    }
}

/// Of two different texts, one comes before the other.
pub proof fn lemma_text_lt_total(a: Seq<char>, b: Seq<char>)
    ensures
        a == b || text_lt(a, b) || text_lt(b, a),
    decreases a.len(),
{
    if a.len() > 0 && b.len() > 0 && a[0] == b[0] {
        lemma_text_lt_total(a.drop_first(), b.drop_first());
        if a.drop_first() == b.drop_first() {
            assert(a =~= seq![a[0]] + a.drop_first());
            assert(b =~= seq![b[0]] + b.drop_first());
        }
    } else if a.len() == 0 && b.len() == 0 {
        assert(a =~= b);
    }
}

/// Whether `s` is strictly increasing.
pub open spec fn strictly_sorted(s: Seq<Seq<char>>) -> bool {
    forall|i: int, j: int| 0 <= i < j < s.len() ==> text_lt(s[i], s[j])
}

/// Whether `a` comes strictly before `b`.
fn text_less(a: &str, b: &str) -> (r: bool)
    ensures
        r == text_lt(a@, b@),
{
    let ac = chars_of(a);
    let bc = chars_of(b);
    let mut k: usize = 0;
    assert(a@.skip(0) =~= a@);
    assert(b@.skip(0) =~= b@);
    while k < ac.len() && k < bc.len()
        invariant
            ac@ == a@,
            bc@ == b@,
            k <= ac@.len(),
            k <= bc@.len(),
            text_lt(a@, b@) == text_lt(a@.skip(k as int), b@.skip(k as int)),
        decreases ac@.len() - k,
    {
        if ac[k] != bc[k] {
            assert(a@.skip(k as int)[0] == ac@[k as int]);
            assert(b@.skip(k as int)[0] == bc@[k as int]);
            return ac[k] < bc[k];
        }
        assert(a@.skip(k as int).drop_first() =~= a@.skip(k + 1));
        assert(b@.skip(k as int).drop_first() =~= b@.skip(k + 1));
        k = k + 1;
    }
    k < bc.len()
}

/// Inserts `c` into the strictly increasing `list`, unless it is there.
fn insert_sorted(list: &mut Vec<String>, c: String)
    requires
        strictly_sorted(strings_view(old(list)@)),
    ensures
        strictly_sorted(strings_view(final(list)@)),
        forall|x: Seq<char>| strings_view(final(list)@).contains(x) <==> (strings_view(old(list)@).contains(x) || x == c@),
{
    let ghost v0 = strings_view(list@);
    let mut k: usize = 0;
    while k < list.len() && text_less(list[k].as_str(), c.as_str())
        invariant
            k <= list@.len(),
            strings_view(list@) == v0,
            strictly_sorted(v0),
            forall|j: int| 0 <= j < k ==> text_lt(#[trigger] v0[j], c@),
        decreases list@.len() - k,
    {
        k = k + 1;
    }
    if k < list.len() && !text_less(c.as_str(), list[k].as_str()) {
        proof {
            lemma_text_lt_total(v0[k as int], c@);
        }
        assert(v0[k as int] == c@);
        return;
    }
    let ghost ck = c@;
    list.insert(k, c);
    let ghost v1 = strings_view(list@);
    assert(v1 =~= v0.insert(k as int, ck));
    assert forall|i: int, j: int| 0 <= i < j < v1.len() implies text_lt(v1[i], v1[j]) by {
        if i < k && j == k {
        } else if i < k && j > k {
            if j - 1 > k {
                lemma_text_lt_transitive(ck, v0[k as int], v0[j - 1]);
            }
            assert(text_lt(ck, v1[j]));
            lemma_text_lt_transitive(v1[i], ck, v1[j]);
        } else if i == k {
            if j - 1 > k {
                lemma_text_lt_transitive(ck, v0[k as int], v0[j - 1]);
            }
        } else if j < k {
        } else {
            assert(v1[i] == v0[i - 1] && v1[j] == v0[j - 1]);
        }
    }
    assert forall|x: Seq<char>| v1.contains(x) <==> (v0.contains(x) || x == ck) by {
        if v0.contains(x) {
            let i = choose|i: int| 0 <= i < v0.len() && v0[i] == x;
            if i < k {
                assert(v1[i] == x);
            } else {
                assert(v1[i + 1] == x);
            }
        }
        if x == ck {
            assert(v1[k as int] == x);
        }
        if v1.contains(x) {
            let i = choose|i: int| 0 <= i < v1.len() && v1[i] == x;
            if i < k {
                assert(v0[i] == x);
            } else if i > k {
                assert(v0[i - 1] == x);
            }
        }
    }
}

/// The numbers carried by GMIC output file names, without repeats, in
/// increasing order.
pub fn output_numbers(names: &Vec<String>) -> (r: Vec<String>)
    ensures
        strictly_sorted(strings_view(r@)),
        forall|x: Seq<char>| strings_view(r@).contains(x) <==> exists|i: int|
            0 <= i < names@.len() && #[trigger] output_number(names@[i]@) == Some(x),
{
    let mut r: Vec<String> = Vec::new();
    let mut i: usize = 0;
    while i < names.len()
        invariant
            i <= names@.len(),
            strictly_sorted(strings_view(r@)),
            forall|x: Seq<char>| strings_view(r@).contains(x) <==> exists|j: int|
                0 <= j < i && #[trigger] output_number(names@[j]@) == Some(x),
        decreases names@.len() - i,
    {
        let ghost before = strings_view(r@);
        match output_number_of(names[i].as_str()) {
            Some(c) => {
                let ghost cv = c@;
                insert_sorted(&mut r, c);
                assert forall|x: Seq<char>| strings_view(r@).contains(x) <==> exists|j: int|
                    0 <= j < i + 1 && #[trigger] output_number(names@[j]@) == Some(x) by {
                    if x == cv {
                        assert(output_number(names@[i as int]@) == Some(x));
                    }
                    if exists|j: int| 0 <= j < i + 1 && #[trigger] output_number(names@[j]@) == Some(x) {
                        let j = choose|j: int| 0 <= j < i + 1 && #[trigger] output_number(names@[j]@) == Some(x);
                        if j < i {
                            assert(before.contains(x));
                        }
                    }
                }
            },
            None => {
                assert forall|x: Seq<char>| strings_view(r@).contains(x) <==> exists|j: int|
                    0 <= j < i + 1 && #[trigger] output_number(names@[j]@) == Some(x) by {
                    if exists|j: int| 0 <= j < i + 1 && #[trigger] output_number(names@[j]@) == Some(x) {
                        let j = choose|j: int| 0 <= j < i + 1 && #[trigger] output_number(names@[j]@) == Some(x);
                        assert(j < i);
                    }
                }
            },
        }
        i = i + 1;
    }
    r
}

/// `parts` joined with `, ` between them.
pub open spec fn comma_joined(parts: Seq<Seq<char>>) -> Seq<char>
    decreases parts.len(),
{
    if parts.len() == 0 {
        Seq::empty()
    } else if parts.len() == 1 {
        parts[0]
    } else {
        comma_joined(parts.drop_last()) + ", "@ + parts.last()
    }
}

/// The warning shown when GMIC wrote several images for some inputs,
/// listing the numbers found; none when there are none.
pub fn display_warn_message(numbers: &Vec<String>) -> (r: Option<String>)
    ensures
        numbers@.len() == 0 ==> r is None,
        numbers@.len() > 0 ==> (r matches Some(m)
            && m@ == "Unique numbers found in output files: "@ + comma_joined(strings_view(numbers@))),
{
    if numbers.len() == 0 {
        return None;
    }
    let mut joined = String::new();
    let mut i: usize = 0;
    while i < numbers.len()
        invariant
            i <= numbers@.len(),
            joined@ == comma_joined(strings_view(numbers@).take(i as int)),
        decreases numbers@.len() - i,
    {
        let ghost prefix = strings_view(numbers@).take(i as int);
        if i > 0 {
            joined.append(", ");
        }
        joined.append(numbers[i].as_str());
        assert(strings_view(numbers@).take(i + 1).drop_last() =~= prefix);
        i = i + 1;
    }
    assert(strings_view(numbers@).take(numbers@.len() as int) =~= strings_view(numbers@));
    let mut m = String::from_str("Unique numbers found in output files: ");
    m.append(joined.as_str());
    Some(m)
}

/// Applies GMIC to the images of an input directory.
pub struct Gmicer {
    input_path: String,
    gmic_args: Vec<String>,
    output_path: String,
    images: BTreeMap<u32, String>,
}

/// What a `Gmicer` holds: its input directory, the GMIC arguments, the
/// output directory and the images by frame number.
pub struct GmicerView {
    pub input_path: Seq<char>,
    pub gmic_args: Seq<Seq<char>>,
    pub output_path: Seq<char>,
    pub images: Map<u32, Seq<char>>,
}

impl View for Gmicer {
    type V = GmicerView;

    closed spec fn view(&self) -> GmicerView {
        GmicerView {
            input_path: self.input_path@,
            gmic_args: strings_view(self.gmic_args@),
            output_path: self.output_path@,
            images: string_map_view(self.images@),
        }
    }
}

impl Gmicer {
    /// A GMIC processor for the images of `input_directory`, writing into
    /// `output_path`, the directory made for the output request of
    /// `output_directory`. Without an output directory there must be GMIC
    /// arguments, which name the directory. `loaded` is what loading the
    /// directory's images gave; a failure there is reported as a rename
    /// error carrying its text.
    pub fn new(
        input_directory: &str,
        output_directory: Option<String>,
        gmic_args: Vec<String>,
        output_path: String,
        loaded: LoadOutcome,
    ) -> (r: Result<Gmicer, String>)
        ensures
            output_directory is None && gmic_args@.len() == 0 ==> (r matches Err(m)
                && m@ == "GMIC arguments should not be empty"@),
            !(output_directory is None && gmic_args@.len() == 0) ==> match loaded {
                LoadOutcome::Loaded(m) => r matches Ok(g) && g@ == (GmicerView {
                    input_path: input_directory@,
                    gmic_args: strings_view(gmic_args@),
                    output_path: output_path@,
                    images: string_map_view(m@),
                }),
                LoadOutcome::Failed(e) => r matches Err(re)
                    && re@ == mapping_error_message(MappingErrorView::RenameError(mapping_error_message(e@))),
            },
    {
        if output_directory.is_none() && gmic_args.len() == 0 {
            return Err(String::from_str("GMIC arguments should not be empty"));
        }
        match loaded {
            LoadOutcome::Loaded(images) => Ok(Gmicer {
                input_path: String::from_str(input_directory),
                gmic_args,
                output_path,
                images,
            }),
            LoadOutcome::Failed(e) => Err(ImageMappingError::RenameError(e.message()).message()),
        }
    }

    /// The GMIC jobs for the images; none when there are no images.
    pub fn gmic_images(&self, output_exists: bool) -> (r: Result<Vec<GmicJob>, String>)
        ensures
            self@.images.len() == 0 ==> (r matches Ok(jobs) && jobs@.len() == 0),
            self@.images.len() > 0 && !output_exists ==> (r matches Err(m)
                && m@ == "Error: The specified output directory does not exist."@),
            self@.images.len() > 0 && output_exists ==> (r matches Ok(jobs)
                && gmic_jobs_for(jobs@, self@.images, self@.gmic_args, self@.output_path)),
    {
        broadcast use vstd::std_specs::btree::group_btree_axioms;
        if self.images.is_empty() {
            assert(string_map_view(self.images@).dom() =~= self.images@.dom());
            return Ok(Vec::new());
        }
        assert(string_map_view(self.images@).dom() =~= self.images@.dom());
        image_processing(&self.images, &self.gmic_args, self.output_path.as_str(), output_exists)
    }

    /// The output directory.
    pub fn output_path(&self) -> (r: &String)
        ensures
            r@ == self@.output_path,
    {
        &self.output_path
    }
}

} // verus!
