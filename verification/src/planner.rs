//! The Target Planner: turn candidate URLs into download tasks for the
//! targets that are not already present.

use vstd::prelude::*;

use crate::image_file::ImageFile;
use crate::paths::{file_name, final_segment, has_file_name, join_path, joined_path};
use crate::strutil::{contains_string, views_of};

verus! {

/// The (url, path) pairs behind a sequence of tasks.
pub open spec fn task_views(v: Seq<ImageFile>) -> Seq<(Seq<char>, Seq<char>)> {
    v.map_values(|t: ImageFile| (t.url@, t.path@))
}

/// The tasks planned for `urls` under `dir`, given the file names already
/// present there: a URL contributes one task exactly when it yields a file
/// name and that name is not among `existing`.
pub open spec fn planned_tasks(
    urls: Seq<Seq<char>>,
    dir: Seq<char>,
    existing: Seq<Seq<char>>,
) -> Seq<(Seq<char>, Seq<char>)>
    decreases urls.len(),
{
    if urls.len() == 0 {
        Seq::empty()
    } else {
        let rest = planned_tasks(urls.drop_last(), dir, existing);
        let u = urls.last();
        if has_file_name(u) && !existing.contains(final_segment(u)) {
            rest.push((u, joined_path(dir, final_segment(u))))
        } else {
            rest
        }
    }
}

/// Unfolding step for a growing prefix of the candidate list.
pub proof fn lemma_planned_tasks_take_step(
    urls: Seq<Seq<char>>,
    dir: Seq<char>,
    existing: Seq<Seq<char>>,
    i: int,
)
    requires
        0 <= i < urls.len(),
    ensures
        planned_tasks(urls.take(i + 1), dir, existing) == if has_file_name(urls[i])
            && !existing.contains(final_segment(urls[i])) {
            planned_tasks(urls.take(i), dir, existing).push(
                (urls[i], joined_path(dir, final_segment(urls[i]))),
            )
        } else {
            planned_tasks(urls.take(i), dir, existing)
        },
{
    let t = urls.take(i + 1);
    assert(t.last() == urls[i]);
    assert(t.drop_last() =~= urls.take(i));
}

/// Plan the downloads for `urls` into `dir`: derive each target as
/// `dir/<final segment>` and keep only the URLs whose target name is not in
/// `existing`, the names already present in that directory.
pub fn plan_downloads(urls: &Vec<String>, dir: &str, existing: &Vec<String>) -> (tasks: Vec<
    ImageFile,
>)
    ensures
        task_views(tasks@) == planned_tasks(views_of(urls@), dir@, views_of(existing@)),
{
    let ghost all = views_of(urls@);
    let ghost present = views_of(existing@);
    let mut tasks: Vec<ImageFile> = Vec::new();
    let mut i: usize = 0;
    proof {
        assert(all.take(0) =~= Seq::<Seq<char>>::empty());
        assert(task_views(tasks@) =~= planned_tasks(all.take(0), dir@, present));
    }
    while i < urls.len()
        invariant
            i <= urls@.len(),
            all == views_of(urls@),
            present == views_of(existing@),
            task_views(tasks@) == planned_tasks(all.take(i as int), dir@, present),
        decreases urls@.len() - i,
    {
        let u = &urls[i];
        assert(all[i as int] == u@);
        proof {
            lemma_planned_tasks_take_step(all, dir@, present, i as int);
        }
        match file_name(u.as_str()) {
            Some(name) => {
                if !contains_string(existing, name.as_str()) {
                    let path = join_path(dir, name.as_str());
                    tasks.push(ImageFile { url: u.clone(), path });
                }
            },
            None => {},
        }
        proof {
            assert(task_views(tasks@) =~= planned_tasks(all.take(i + 1 as int), dir@, present));
        }
        i = i + 1;
    }
    proof {
        assert(all.take(i as int) =~= all);
    }
    tasks
}

/// Path derivation: every planned task is for a URL with a derivable file
/// name, that name was not already present, and the task's target is exactly
/// `dir/<final segment>`.
pub proof fn lemma_planned_names(urls: Seq<Seq<char>>, dir: Seq<char>, existing: Seq<Seq<char>>)
    ensures
        forall|k: int|
            0 <= k < planned_tasks(urls, dir, existing).len() ==> {
                let t = #[trigger] planned_tasks(urls, dir, existing)[k];
                has_file_name(t.0) && !existing.contains(final_segment(t.0)) && t.1 == joined_path(
                    dir,
                    final_segment(t.0),
                )
            },
    decreases urls.len(),
{
    if urls.len() == 0 {
    } else {
        let prefix = urls.drop_last();
        let u = urls.last();
        let rest = planned_tasks(prefix, dir, existing);
        let full = planned_tasks(urls, dir, existing);
        lemma_planned_names(prefix, dir, existing);
        assert forall|k: int| 0 <= k < full.len() implies {
            let t = #[trigger] full[k];
            has_file_name(t.0) && !existing.contains(final_segment(t.0)) && t.1 == joined_path(
                dir,
                final_segment(t.0),
            )
        } by {
            if k < rest.len() {
                assert(full[k] == rest[k]);
            } else {
                assert(full[k] == (u, joined_path(dir, final_segment(u))));
            }
        }
    }
}

/// Idempotence: once a run has written its planned names, a second planning
/// pass over the same candidates finds every target present and plans
/// nothing new.
///
/// `later` is the directory contents before the second run: it still holds
/// every name that was present before the first run, and now also the name
/// of every task the first run planned.
pub proof fn lemma_plan_idempotent(
    urls: Seq<Seq<char>>,
    dir: Seq<char>,
    existing: Seq<Seq<char>>,
    later: Seq<Seq<char>>,
)
    requires
        forall|n: Seq<char>| existing.contains(n) ==> later.contains(n),
        forall|k: int|
            0 <= k < planned_tasks(urls, dir, existing).len() ==> later.contains(
                final_segment(#[trigger] planned_tasks(urls, dir, existing)[k].0),
            ),
    ensures
        planned_tasks(urls, dir, later).len() == 0,
    decreases urls.len(),
{
    if urls.len() == 0 {
    } else {
        let prefix = urls.drop_last();
        let u = urls.last();
        let rest = planned_tasks(prefix, dir, existing);
        let full = planned_tasks(urls, dir, existing);
        assert forall|k: int| 0 <= k < rest.len() implies later.contains(
            final_segment(#[trigger] rest[k].0),
        ) by {
            assert(full[k] == rest[k]);
        }
        lemma_plan_idempotent(prefix, dir, existing, later);
        if has_file_name(u) && !later.contains(final_segment(u)) {
            if existing.contains(final_segment(u)) {
                assert(later.contains(final_segment(u)));
            } else {
                let idx = full.len() - 1;
                assert(full == rest.push((u, joined_path(dir, final_segment(u)))));
                assert(full[idx] == (u, joined_path(dir, final_segment(u))));
                assert(later.contains(final_segment(full[idx].0)));
                assert(later.contains(final_segment(u)));
            }
        }
    }
}

} // verus!
