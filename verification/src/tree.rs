//! A directory tree as a value, and what the walks make of it.
//!
//! The walks of `ls -R` and `cp -r` work through a queue, one path at a
//! time. Here a tree is modelled as a value, the listing and the copy of a
//! tree are written down by recursion, and the walks through the queue are
//! shown to do exactly that.

use crate::copy::{child_jobs, dir_target, tree_step, CopyError, StepText};
use crate::entry::{paths_of, Entry};
use crate::listing::{entry_shown, level_lines, shown};
use crate::path::{base_name, joined};
use vstd::prelude::*;

verus! {

/// An entry of a directory together with what stands under it.
pub struct Child {
    /// The path and the name of the entry.
    pub entry: Entry,
    /// What the entry is.
    pub node: Node,
}

/// What stands at a path.
pub enum Node {
    /// Something that is no directory.
    Leaf,
    /// A directory, with its entries in the order in which they are read.
    Dir(Seq<Child>),
}

/// The entries of the children of a directory.
pub open spec fn entries_of(children: Seq<Child>) -> Seq<Entry> {
    children.map_values(|c: Child| c.entry)
}

/// The test that a recursive listing puts a child to.
pub open spec fn child_shown(show_hidden: bool) -> spec_fn(Child) -> bool {
    |c: Child| entry_shown(show_hidden)(c.entry)
}

/// The children that a recursive listing shows and enters.
pub open spec fn kept(children: Seq<Child>, show_hidden: bool) -> Seq<Child> {
    children.filter(child_shown(show_hidden))
}

/// The number of nodes in a tree.
pub open spec fn node_size(node: Node) -> nat
    decreases node,
{
    match node {
        Node::Leaf => 1,
        Node::Dir(children) => 1 + forest_size(children),
    }
}

/// The number of nodes in the trees under a sequence of children.
pub open spec fn forest_size(children: Seq<Child>) -> nat
    decreases children,
{
    if children.len() == 0 {
        0
    } else {
        node_size(children[0].node) + forest_size(children.drop_first())
    }
}

/// The lines of the recursive listing of what stands at `path`: nothing for
/// what is no directory; for a directory its own level, then the listing of
/// each entry shown, in the order of the entries.
pub open spec fn tree_lines(path: Seq<char>, node: Node, show_hidden: bool) -> Seq<Seq<char>>
    decreases node,
{
    match node {
        Node::Leaf => Seq::empty(),
        Node::Dir(children) => level_lines(path, show_hidden, entries_of(children)) + below(
            children,
            show_hidden,
        ),
    }
}

/// The listings of the children that are shown, one after the other.
pub open spec fn below(children: Seq<Child>, show_hidden: bool) -> Seq<Seq<char>>
    decreases children,
{
    if children.len() == 0 {
        Seq::empty()
    } else {
        (if child_shown(show_hidden)(children[0]) {
            tree_lines(children[0].entry.path@, children[0].node, show_hidden)
        } else {
            Seq::empty()
        }) + below(children.drop_first(), show_hidden)
    }
}

/// The lines that the walk prints from a queue on: it takes the first
/// child off the queue, prints the level of a directory, and puts the
/// entries shown at the front of the queue. `steps` bounds the number of
/// children taken off the queue.
pub open spec fn walk_lines(queue: Seq<Child>, show_hidden: bool, steps: nat) -> Seq<Seq<char>>
    decreases steps,
{
    if steps == 0 || queue.len() == 0 {
        Seq::empty()
    } else {
        let rest = queue.drop_first();
        match queue[0].node {
            Node::Leaf => walk_lines(rest, show_hidden, (steps - 1) as nat),
            Node::Dir(children) => level_lines(
                queue[0].entry.path@,
                show_hidden,
                entries_of(children),
            ) + walk_lines(kept(children, show_hidden) + rest, show_hidden, (steps - 1) as nat),
        }
    }
}

/// The listings of every tree in a queue, one after the other.
pub open spec fn queue_lines(queue: Seq<Child>, show_hidden: bool) -> Seq<Seq<char>>
    decreases queue.len(),
{
    if queue.len() == 0 {
        Seq::empty()
    } else {
        tree_lines(queue[0].entry.path@, queue[0].node, show_hidden) + queue_lines(
            queue.drop_first(),
            show_hidden,
        )
    }
}

/// The queue that the walk keeps holds the paths of the children that the
/// model keeps: the entries shown among those of a directory are the
/// entries of the children kept.
pub proof fn lemma_kept_entries(children: Seq<Child>, show_hidden: bool)
    ensures
        entries_of(kept(children, show_hidden)) == shown(entries_of(children), show_hidden),
        paths_of(entries_of(kept(children, show_hidden))) == paths_of(
            shown(entries_of(children), show_hidden),
        ),
    decreases children.len(),
{
    reveal(Seq::filter);
    if children.len() > 0 {
        let front = children.drop_last();
        lemma_kept_entries(front, show_hidden);
        assert(entries_of(children).drop_last() =~= entries_of(front));
        assert(entries_of(children).last() == children.last().entry);
        if child_shown(show_hidden)(children.last()) {
            assert(entries_of(kept(front, show_hidden).push(children.last())) =~= entries_of(
                kept(front, show_hidden),
            ).push(children.last().entry));
        }
    } else {
        assert(entries_of(kept(children, show_hidden)) =~= shown(
            entries_of(children),
            show_hidden,
        ));
    }
}

/// The size of two forests in a row is the sum of their sizes.
proof fn lemma_forest_size_add(a: Seq<Child>, b: Seq<Child>)
    ensures
        forest_size(a + b) == forest_size(a) + forest_size(b),
    decreases a.len(),
{
    if a.len() == 0 {
        assert(a + b =~= b);
    } else {
        assert((a + b).drop_first() =~= a.drop_first() + b);
        lemma_forest_size_add(a.drop_first(), b);
    }
}

/// Leaving children out does not make a forest larger.
proof fn lemma_forest_size_kept(children: Seq<Child>, show_hidden: bool)
    ensures
        forest_size(kept(children, show_hidden)) <= forest_size(children),
    decreases children.len(),
{
    if children.len() > 0 {
        let head = seq![children[0]];
        let tail = children.drop_first();
        assert(children =~= head + tail);
        Seq::filter_distributes_over_add(head, tail, child_shown(show_hidden));
        lemma_forest_size_kept(tail, show_hidden);
        lemma_single(children[0], show_hidden);
        lemma_forest_size_add(head.filter(child_shown(show_hidden)), kept(tail, show_hidden));
    } else {
        reveal(Seq::filter);
    }
}

/// The listing of two queues in a row is the one listing after the other.
proof fn lemma_queue_lines_add(a: Seq<Child>, b: Seq<Child>, show_hidden: bool)
    ensures
        queue_lines(a + b, show_hidden) == queue_lines(a, show_hidden) + queue_lines(
            b,
            show_hidden,
        ),
    decreases a.len(),
{
    if a.len() == 0 {
        assert(a + b =~= b);
    } else {
        assert((a + b).drop_first() =~= a.drop_first() + b);
        lemma_queue_lines_add(a.drop_first(), b, show_hidden);
    }
}

/// A queue of one child: its size, its listing, and what is kept of it.
proof fn lemma_single(child: Child, show_hidden: bool)
    ensures
        forest_size(seq![child]) == node_size(child.node),
        queue_lines(seq![child], show_hidden) == tree_lines(
            child.entry.path@,
            child.node,
            show_hidden,
        ),
        seq![child].filter(child_shown(show_hidden)) == if child_shown(show_hidden)(child) {
            seq![child]
        } else {
            Seq::<Child>::empty()
        },
{
    let one = seq![child];
    assert(one.drop_first() =~= Seq::<Child>::empty());
    assert(one.drop_last() =~= Seq::<Child>::empty());
    assert(forest_size(one) == node_size(one[0].node) + forest_size(one.drop_first()));
    assert(queue_lines(one, show_hidden) =~= tree_lines(
        one[0].entry.path@,
        one[0].node,
        show_hidden,
    ) + queue_lines(one.drop_first(), show_hidden));
    reveal_with_fuel(Seq::filter, 2);
    assert(one.filter(child_shown(show_hidden)) =~= if child_shown(show_hidden)(child) {
        one
    } else {
        Seq::<Child>::empty()
    });
}

/// What is listed below a directory is the listing of the queue of the
/// children kept.
proof fn lemma_below_is_queue(children: Seq<Child>, show_hidden: bool)
    ensures
        below(children, show_hidden) == queue_lines(kept(children, show_hidden), show_hidden),
    decreases children.len(),
{
    if children.len() > 0 {
        let head = seq![children[0]];
        let tail = children.drop_first();
        assert(children =~= head + tail);
        Seq::filter_distributes_over_add(head, tail, child_shown(show_hidden));
        lemma_below_is_queue(tail, show_hidden);
        lemma_single(children[0], show_hidden);
        lemma_queue_lines_add(
            head.filter(child_shown(show_hidden)),
            kept(tail, show_hidden),
            show_hidden,
        );
        assert(below(children, show_hidden) =~= queue_lines(
            head.filter(child_shown(show_hidden)),
            show_hidden,
        ) + below(tail, show_hidden));
    } else {
        reveal(Seq::filter);
    }
}

/// The walk through a queue prints the listing of each tree in the queue,
/// one after the other, once it is given steps enough to take every node
/// off the queue.
pub proof fn lemma_walk_prints_queue(queue: Seq<Child>, show_hidden: bool, steps: nat)
    requires
        steps >= forest_size(queue),
    ensures
        walk_lines(queue, show_hidden, steps) == queue_lines(queue, show_hidden),
    decreases steps,
{
    if queue.len() > 0 {
        let rest = queue.drop_first();
        assert(forest_size(queue) == node_size(queue[0].node) + forest_size(rest));
        assert(node_size(queue[0].node) >= 1);
        match queue[0].node {
            Node::Leaf => {
                lemma_walk_prints_queue(rest, show_hidden, (steps - 1) as nat);
            },
            Node::Dir(children) => {
                let next = kept(children, show_hidden) + rest;
                lemma_forest_size_kept(children, show_hidden);
                lemma_forest_size_add(kept(children, show_hidden), rest);
                lemma_walk_prints_queue(next, show_hidden, (steps - 1) as nat);
                lemma_queue_lines_add(kept(children, show_hidden), rest, show_hidden);
                lemma_below_is_queue(children, show_hidden);
            },
        }
    }
}

/// The walk that starts at a root prints the recursive listing of the tree
/// at that root: every directory reached through entries that are shown is
/// listed, a directory before anything below it, and its entries in the
/// order in which they were read.
pub proof fn lemma_walk_prints_tree(root: Child, show_hidden: bool)
    ensures
        walk_lines(seq![root], show_hidden, node_size(root.node)) == tree_lines(
            root.entry.path@,
            root.node,
            show_hidden,
        ),
{
    lemma_single(root, show_hidden);
    lemma_walk_prints_queue(seq![root], show_hidden, node_size(root.node));
}

/// A job of the copy in the model: what is to be copied, and the path it
/// is copied to.
pub struct ModelJob {
    /// The entry to copy and what stands under it.
    pub child: Child,
    /// The path to copy it to.
    pub dest: Seq<char>,
}

/// The steps that mirror what stands at `path` at the place `target`: a
/// file is copied to `target`; a directory is created as `target`, and each
/// of its entries is mirrored under its own name inside `target`.
pub open spec fn mirror_steps(path: Seq<char>, node: Node, target: Seq<char>) -> Seq<StepText>
    decreases node,
{
    match node {
        Node::Leaf => seq![StepText::File { src: path, target }],
        Node::Dir(children) => seq![StepText::Directory { src: path, target }] + mirror_below(
            children,
            target,
        ),
    }
}

/// The steps that mirror each of the children inside the directory
/// `target`, one child after the other.
pub open spec fn mirror_below(children: Seq<Child>, target: Seq<char>) -> Seq<StepText>
    decreases children,
{
    if children.len() == 0 {
        Seq::empty()
    } else {
        mirror_steps(
            children[0].entry.path@,
            children[0].node,
            joined(target, children[0].entry.name@),
        ) + mirror_below(children.drop_first(), target)
    }
}

/// The jobs that the children of a directory give rise to when the
/// directory is copied to `target`.
pub open spec fn model_jobs(children: Seq<Child>, target: Seq<char>) -> Seq<ModelJob> {
    children.map_values(|c: Child| ModelJob { child: c, dest: joined(target, c.entry.name@) })
}

/// The two paths of each job in a queue of the model.
pub open spec fn job_paths(queue: Seq<ModelJob>) -> Seq<(Seq<char>, Seq<char>)> {
    queue.map_values(|job: ModelJob| (job.child.entry.path@, job.dest))
}

/// The number of nodes in the trees of a queue of jobs.
pub open spec fn jobs_size(queue: Seq<ModelJob>) -> nat
    decreases queue.len(),
{
    if queue.len() == 0 {
        0
    } else {
        node_size(queue[0].child.node) + jobs_size(queue.drop_first())
    }
}

/// The steps that the walk of a recursive copy plans from a queue on, where
/// nothing stands yet at the destination of any job: it takes the first job
/// off the queue, plans it, and for a directory puts a job for each entry at
/// the front of the queue. `steps` bounds the number of jobs taken off the
/// queue.
pub open spec fn copy_steps(queue: Seq<ModelJob>, steps: nat) -> Seq<StepText>
    decreases steps,
{
    if steps == 0 || queue.len() == 0 {
        Seq::empty()
    } else {
        let job = queue[0];
        let rest = queue.drop_first();
        let path = job.child.entry.path@;
        match job.child.node {
            Node::Leaf => match tree_step(path, job.dest, false, false, false, base_name(path)) {
                Ok(step) => seq![step] + copy_steps(rest, (steps - 1) as nat),
                Err(_) => Seq::empty(),
            },
            Node::Dir(children) => match tree_step(
                path,
                job.dest,
                true,
                false,
                false,
                base_name(path),
            ) {
                Ok(step) => seq![step] + copy_steps(
                    model_jobs(children, job.dest) + rest,
                    (steps - 1) as nat,
                ),
                Err(_) => Seq::empty(),
            },
        }
    }
}

/// The steps that mirror every job of a queue, one job after the other.
pub open spec fn queue_steps(queue: Seq<ModelJob>) -> Seq<StepText>
    decreases queue.len(),
{
    if queue.len() == 0 {
        Seq::empty()
    } else {
        mirror_steps(queue[0].child.entry.path@, queue[0].child.node, queue[0].dest) + queue_steps(
            queue.drop_first(),
        )
    }
}

/// The jobs that the walk queues for the entries of a directory are those
/// of the model: each entry is copied to its own name inside the target.
pub proof fn lemma_model_jobs(children: Seq<Child>, target: Seq<char>)
    ensures
        job_paths(model_jobs(children, target)) == child_jobs(target, entries_of(children)),
{
    assert(job_paths(model_jobs(children, target)) =~= child_jobs(target, entries_of(children)));
}

/// The size of two queues of jobs in a row is the sum of their sizes.
proof fn lemma_jobs_size_add(a: Seq<ModelJob>, b: Seq<ModelJob>)
    ensures
        jobs_size(a + b) == jobs_size(a) + jobs_size(b),
    decreases a.len(),
{
    if a.len() == 0 {
        assert(a + b =~= b);
    } else {
        assert((a + b).drop_first() =~= a.drop_first() + b);
        lemma_jobs_size_add(a.drop_first(), b);
    }
}

/// The steps for two queues in a row are the steps for the one after those
/// for the other.
proof fn lemma_queue_steps_add(a: Seq<ModelJob>, b: Seq<ModelJob>)
    ensures
        queue_steps(a + b) == queue_steps(a) + queue_steps(b),
    decreases a.len(),
{
    if a.len() == 0 {
        assert(a + b =~= b);
    } else {
        assert((a + b).drop_first() =~= a.drop_first() + b);
        lemma_queue_steps_add(a.drop_first(), b);
    }
}

/// The jobs for the entries of a directory hold its forest, and their
/// steps mirror each entry inside the target.
proof fn lemma_model_jobs_mirror(children: Seq<Child>, target: Seq<char>)
    ensures
        jobs_size(model_jobs(children, target)) == forest_size(children),
        queue_steps(model_jobs(children, target)) == mirror_below(children, target),
    decreases children.len(),
{
    if children.len() > 0 {
        lemma_model_jobs_mirror(children.drop_first(), target);
        assert(model_jobs(children, target).drop_first() =~= model_jobs(
            children.drop_first(),
            target,
        ));
    }
}

/// The walk through a queue of jobs plans, job after job, the steps that
/// mirror each tree at its destination, once it is given steps enough to
/// take every node off the queue.
pub proof fn lemma_copy_mirrors_queue(queue: Seq<ModelJob>, steps: nat)
    requires
        steps >= jobs_size(queue),
    ensures
        copy_steps(queue, steps) == queue_steps(queue),
    decreases steps,
{
    if queue.len() > 0 {
        let job = queue[0];
        let rest = queue.drop_first();
        assert(jobs_size(queue) == node_size(job.child.node) + jobs_size(rest));
        assert(node_size(job.child.node) >= 1);
        match job.child.node {
            Node::Leaf => {
                lemma_copy_mirrors_queue(rest, (steps - 1) as nat);
            },
            Node::Dir(children) => {
                let next = model_jobs(children, job.dest) + rest;
                lemma_model_jobs_mirror(children, job.dest);
                lemma_jobs_size_add(model_jobs(children, job.dest), rest);
                lemma_copy_mirrors_queue(next, (steps - 1) as nat);
                lemma_queue_steps_add(model_jobs(children, job.dest), rest);
            },
        }
    }
}

/// A recursive copy of a directory mirrors the tree below it: the
/// directory is created at the place that `dir_target` picks, and the walk
/// then plans, for every file and directory below the source, a step that
/// puts it under the same names below that place. This holds where nothing
/// stands yet at the places that the entries are copied to.
pub proof fn lemma_copy_mirrors_tree(
    root: Child,
    dest: Seq<char>,
    dest_exists: bool,
    dest_is_dir: bool,
)
    requires
        root.node is Dir,
    ensures
        ({
            let path = root.entry.path@;
            let target = dir_target(dest, dest_exists, base_name(path));
            &&& tree_step(path, dest, true, dest_exists, dest_is_dir, base_name(path)) == Ok::<
                StepText,
                CopyError,
            >(StepText::Directory { src: path, target })
            &&& seq![StepText::Directory { src: path, target }] + copy_steps(
                model_jobs(root.node->Dir_0, target),
                forest_size(root.node->Dir_0),
            ) == mirror_steps(path, root.node, target)
        }),
{
    let path = root.entry.path@;
    let target = dir_target(dest, dest_exists, base_name(path));
    let children = root.node->Dir_0;
    lemma_model_jobs_mirror(children, target);
    lemma_copy_mirrors_queue(model_jobs(children, target), forest_size(children));
}

} // verus!
