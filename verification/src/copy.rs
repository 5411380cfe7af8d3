//! Copying: where `cp` puts a file or a directory, and the walk of `cp -r`
//! through a directory tree.

use crate::entry::Entry;
use crate::path::{base_name, file_name, join_path, joined};
use vstd::prelude::*;
use vstd::string::StringExecFns;

verus! {

/// Why a copy cannot be made.
#[derive(Clone, Copy, Debug, PartialEq, Eq, Structural)]
pub enum CopyError {
    /// The destination is a directory and the source path has no last
    /// component to name the copy by.
    NoFileName,
}

/// The file that a copy into `dest` writes, given the last component of the
/// source path: `dest` itself, or, where `dest` is a directory, the source's
/// name inside it.
pub open spec fn file_target(dest: Seq<char>, dest_is_dir: bool, src_name: Option<Seq<char>>) -> Result<
    Seq<char>,
    CopyError,
> {
    if !dest_is_dir {
        Ok(dest)
    } else {
        match src_name {
            Some(name) => Ok(joined(dest, name)),
            None => Err(CopyError::NoFileName),
        }
    }
}

/// The directory that a recursive copy into `dest` fills, given the last
/// component of the source path: `dest` itself where nothing exists there
/// yet, else the source's name inside `dest`, and the empty path where the
/// source has no name.
pub open spec fn dir_target(dest: Seq<char>, dest_exists: bool, src_name: Option<Seq<char>>) -> Seq<
    char,
> {
    if !dest_exists {
        dest
    } else {
        match src_name {
            Some(name) => joined(dest, name),
            None => Seq::empty(),
        }
    }
}

/// The text of a target that was picked, or the error in its place.
pub open spec fn target_text(target: Result<String, CopyError>) -> Result<Seq<char>, CopyError> {
    match target {
        Ok(path) => Ok(path@),
        Err(error) => Err(error),
    }
}

/// Picks the file that copying `src_path` to `dest_path` writes. The caller
/// says whether `dest_path` is a directory; if it is, the copy goes inside
/// it under the source's own name.
pub fn copy(src_path: &str, dest_path: &str, dest_is_dir: bool) -> (target: Result<
    String,
    CopyError,
>)
    ensures
        target_text(target) == file_target(dest_path@, dest_is_dir, base_name(src_path@)),
{
    if !dest_is_dir {
        return Ok(String::from_str(dest_path));
    }
    match file_name(src_path) {
        Some(name) => Ok(join_path(dest_path, name.as_str())),
        None => Err(CopyError::NoFileName),
    }
}

/// Picks the directory that a recursive copy of the directory `src_path`
/// to `dest_path` fills. The caller says whether anything exists at
/// `dest_path`; if so, the copy goes inside it under the source's own name.
pub fn get_cp_dir_name(src_path: &str, dest_path: &str, dest_exists: bool) -> (dir: String)
    ensures
        dir@ == dir_target(dest_path@, dest_exists, base_name(src_path@)),
{
    if !dest_exists {
        return String::from_str(dest_path);
    }
    match file_name(src_path) {
        Some(name) => join_path(dest_path, name.as_str()),
        None => String::new(),
    }
}

/// One thing left to copy: a source path and the path it is copied to.
#[derive(Clone, Debug, PartialEq, Eq)]
pub struct CopyJob {
    /// The path to copy from.
    pub src: String,
    /// The path to copy to.
    pub dest: String,
}

/// The two paths of a job.
pub open spec fn job_text(job: CopyJob) -> (Seq<char>, Seq<char>) {
    (job.src@, job.dest@)
}

/// The paths of a sequence of jobs.
pub open spec fn jobs_text(jobs: Seq<CopyJob>) -> Seq<(Seq<char>, Seq<char>)> {
    jobs.map_values(|job: CopyJob| job_text(job))
}

/// What is to be done for one job.
#[derive(Clone, Debug, PartialEq, Eq)]
pub enum CopyStep {
    /// Copy the contents of the file `src` into the file `target`.
    File { src: String, target: String },
    /// Create the directory `target` with its missing ancestors, then read
    /// the entries of `src` and hand them to `CopyWalk::descend`.
    Directory { src: String, target: String },
}

/// A step with its paths as texts.
pub enum StepText {
    /// The step `CopyStep::File`.
    File { src: Seq<char>, target: Seq<char> },
    /// The step `CopyStep::Directory`.
    Directory { src: Seq<char>, target: Seq<char> },
}

/// The texts of a step that was planned, or the error in its place.
pub open spec fn step_text(step: Result<CopyStep, CopyError>) -> Result<StepText, CopyError> {
    match step {
        Ok(CopyStep::File { src, target }) => Ok(StepText::File { src: src@, target: target@ }),
        Ok(CopyStep::Directory { src, target }) => Ok(
            StepText::Directory { src: src@, target: target@ },
        ),
        Err(error) => Err(error),
    }
}

/// The step for a job of a plain copy: the source is copied as a file,
/// whatever it is.
pub open spec fn file_step(
    src: Seq<char>,
    dest: Seq<char>,
    dest_is_dir: bool,
    src_name: Option<Seq<char>>,
) -> Result<StepText, CopyError> {
    match file_target(dest, dest_is_dir, src_name) {
        Ok(target) => Ok(StepText::File { src, target }),
        Err(error) => Err(error),
    }
}

/// The step for a job of a recursive copy: a directory is mirrored at the
/// place that `dir_target` picks, anything else is copied as a file.
pub open spec fn tree_step(
    src: Seq<char>,
    dest: Seq<char>,
    src_is_dir: bool,
    dest_exists: bool,
    dest_is_dir: bool,
    src_name: Option<Seq<char>>,
) -> Result<StepText, CopyError> {
    if src_is_dir {
        Ok(StepText::Directory { src, target: dir_target(dest, dest_exists, src_name) })
    } else {
        file_step(src, dest, dest_is_dir, src_name)
    }
}

/// Plans the copy of one path in a recursive copy. The caller says whether
/// the source is a directory, whether anything exists at the destination,
/// and whether that is a directory.
pub fn copy_r(
    src_path: &str,
    dest_path: &str,
    src_is_dir: bool,
    dest_exists: bool,
    dest_is_dir: bool,
) -> (step: Result<CopyStep, CopyError>)
    ensures
        step_text(step) == tree_step(
            src_path@,
            dest_path@,
            src_is_dir,
            dest_exists,
            dest_is_dir,
            base_name(src_path@),
        ),
{
    if src_is_dir {
        let target = get_cp_dir_name(src_path, dest_path, dest_exists);
        Ok(CopyStep::Directory { src: String::from_str(src_path), target })
    } else {
        match copy(src_path, dest_path, dest_is_dir) {
            Ok(target) => Ok(CopyStep::File { src: String::from_str(src_path), target }),
            Err(error) => Err(error),
        }
    }
}

/// The jobs that the entries of a directory give rise to: each entry is
/// copied to its own name inside `dest_dir`.
pub open spec fn child_jobs(dest_dir: Seq<char>, entries: Seq<Entry>) -> Seq<
    (Seq<char>, Seq<char>),
> {
    entries.map_values(|e: Entry| (e.path@, joined(dest_dir, e.name@)))
}

/// A copy in progress: the jobs that are still to be done.
///
/// The walk is driven from outside. `next` hands out a job; the caller
/// looks at the two paths and asks `plan` what to do; after creating a
/// directory it hands the entries found in the source to `descend`.
pub struct CopyWalk {
    stack: Vec<CopyJob>,
    recursive: bool,
}

impl CopyWalk {
    /// The jobs still to be done, the next one first.
    pub closed spec fn queue(&self) -> Seq<(Seq<char>, Seq<char>)> {
        jobs_text(self.stack@).reverse()
    }

    /// Whether directories are copied with what they hold.
    pub closed spec fn recursive(&self) -> bool {
        self.recursive
    }

    /// Whether directories are copied with what they hold.
    pub fn is_recursive(&self) -> (yes: bool)
        ensures
            yes == self.recursive(),
    {
        self.recursive
    }

    /// Takes the next job off the queue; `None` when the copy is complete.
    pub fn next(&mut self) -> (job: Option<CopyJob>)
        ensures
            final(self).recursive() == old(self).recursive(),
            old(self).queue().len() == 0 ==> job is None && final(self).queue() == old(
                self,
            ).queue(),
            old(self).queue().len() > 0 ==> job is Some && job_text(job->0) == old(self).queue()[0]
                && final(self).queue() == old(self).queue().skip(1),
    {
        let job = self.stack.pop();
        proof {
            if old(self).stack@.len() > 0 {
                assert(self.queue() =~= old(self).queue().skip(1));
            } else {
                assert(self.queue() =~= old(self).queue());
            }
        }
        job
    }

    /// Plans one job. In a recursive copy a directory is mirrored and
    /// anything else copied as a file; in a plain copy the source is copied
    /// as a file whatever it is.
    pub fn plan(&self, job: &CopyJob, src_is_dir: bool, dest_exists: bool, dest_is_dir: bool) -> (step:
        Result<CopyStep, CopyError>)
        ensures
            self.recursive() ==> step_text(step) == tree_step(
                job.src@,
                job.dest@,
                src_is_dir,
                dest_exists,
                dest_is_dir,
                base_name(job.src@),
            ),
            !self.recursive() ==> step_text(step) == file_step(
                job.src@,
                job.dest@,
                dest_is_dir,
                base_name(job.src@),
            ),
    {
        if self.recursive {
            copy_r(job.src.as_str(), job.dest.as_str(), src_is_dir, dest_exists, dest_is_dir)
        } else {
            match copy(job.src.as_str(), job.dest.as_str(), dest_is_dir) {
                Ok(target) => Ok(CopyStep::File { src: job.src.clone(), target }),
                Err(error) => Err(error),
            }
        }
    }

    /// Takes in the entries found in a source directory whose copy is the
    /// directory `dest_dir`. Each entry becomes a job that copies it to its
    /// own name inside `dest_dir`; the new jobs go to the front of the
    /// queue, in the order of the entries.
    pub fn descend(&mut self, dest_dir: &str, entries: &Vec<Entry>)
        ensures
            final(self).recursive() == old(self).recursive(),
            final(self).queue() == child_jobs(dest_dir@, entries@) + old(self).queue(),
    {
        let ghost children = child_jobs(dest_dir@, entries@);
        let ghost old_stack = self.stack@;
        let mut i: usize = entries.len();
        while i > 0
            invariant
                i <= entries.len(),
                self.recursive == old(self).recursive,
                children == child_jobs(dest_dir@, entries@),
                jobs_text(self.stack@) == jobs_text(old_stack) + children.skip(i as int).reverse(),
            decreases i,
        {
            i -= 1;
            let ghost stack_before = self.stack@;
            let entry = &entries[i];
            let job = CopyJob {
                src: entry.path.clone(),
                dest: join_path(dest_dir, entry.name.as_str()),
            };
            assert(job_text(job) == children[i as int]);
            self.stack.push(job);
            assert(jobs_text(self.stack@) =~= jobs_text(stack_before).push(children[i as int]));
            assert(children.skip(i as int).reverse() =~= children.skip(i + 1).reverse().push(
                children[i as int],
            ));
        }
        assert(self.queue() =~= children + old(self).queue());
    }
}

/// Starts a copy of `src_path` to `dest_path`; with `flag_r` directories
/// are copied with what they hold.
pub fn cp(flag_r: bool, src_path: &str, dest_path: &str) -> (walk: CopyWalk)
    ensures
        walk.queue() == seq![(src_path@, dest_path@)],
        walk.recursive() == flag_r,
{
    let mut stack: Vec<CopyJob> = Vec::new();
    stack.push(CopyJob { src: String::from_str(src_path), dest: String::from_str(dest_path) });
    let walk = CopyWalk { stack, recursive: flag_r };
    assert(walk.queue() =~= seq![(src_path@, dest_path@)]);
    walk
}

} // verus!
