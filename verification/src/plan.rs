//! The downloads of one version, put together from its metadata: the core
//! files, then the asset objects its index lists; which of them still need
//! fetching; and what a finished run reports.
use vstd::prelude::*;

use crate::config::LauncherConfig;
use crate::download::{
    asset_index_job, asset_index_job_spec, asset_index_path, asset_job, asset_job_spec, client_jar_job, client_jar_job_spec,
    copy_job, job_view, logging_config_job, logging_config_job_spec, native_paths_ok, opt_job_view,
    parse_libraries, parse_libraries_spec, resolved_view, DownloadJob, DownloadSummary, JobView, ResolvedLibrary,
};
use crate::minecraft::{LaunchContext, MinecraftVersionJson};
use crate::text::{chars_of, decimal, format_decimal, join_path, join_path_str, push_all, string_of};

verus! {

/// An optional job as a sequence of none or one.
pub open spec fn opt_seq(j: Option<JobView>) -> Seq<JobView> {
    match j {
        Some(x) => seq![x],
        None => Seq::empty(),
    }
}

/// The jobs of resolved libraries in order, each library's artifact before
/// its natives.
pub open spec fn library_jobs(rs: Seq<(Option<JobView>, Option<JobView>)>) -> Seq<JobView>
    decreases rs.len(),
{
    if rs.len() == 0 {
        Seq::empty()
    } else {
        library_jobs(rs.drop_last()) + opt_seq(rs.last().0) + opt_seq(rs.last().1)
    }
}

/// The core downloads of a version, in order: the client jar, the
/// libraries the rules allow, the asset index and the logging
/// configuration.
pub open spec fn core_jobs_spec(v: MinecraftVersionJson, game_dir: Seq<char>, ctx: LaunchContext) -> Seq<JobView> {
    opt_seq(client_jar_job_spec(v, game_dir)) + library_jobs(
        parse_libraries_spec(v.libraries@, game_dir, ctx),
    ) + opt_seq(asset_index_job_spec(v, game_dir)) + opt_seq(logging_config_job_spec(v, game_dir))
}

/// Jobs as their views.
pub open spec fn jobs_view(jobs: Seq<DownloadJob>) -> Seq<JobView> {
    jobs.map_values(|j: DownloadJob| job_view(j))
}

fn copy_opt_job(j: &Option<DownloadJob>) -> (r: Option<DownloadJob>)
    ensures
        r == *j,
{
    match j {
        Some(x) => Some(copy_job(x)),
        None => None,
    }
}

fn push_opt(jobs: &mut Vec<DownloadJob>, j: Option<DownloadJob>)
    ensures
        jobs_view(final(jobs)@) == jobs_view(old(jobs)@) + opt_seq(opt_job_view(j)),
{
    let ghost before = jobs_view(jobs@);
    match j {
        Some(x) => {
            let ghost xv = job_view(x);
            jobs.push(x);
            assert(jobs_view(jobs@) =~= before + seq![xv]);
        },
        None => {
            assert(jobs_view(jobs@) =~= before + Seq::<JobView>::empty());
        },
    }
}

/// The core downloads of a version (see `core_jobs_spec`).
pub fn core_download_jobs(version: &MinecraftVersionJson, game_dir: &str, context: &LaunchContext) -> (jobs: Vec<
    DownloadJob,
>)
    requires
        native_paths_ok(version.libraries@, *context),
    ensures
        jobs_view(jobs@) == core_jobs_spec(*version, game_dir@, *context),
{
    let mut jobs: Vec<DownloadJob> = Vec::new();
    assert(jobs_view(jobs@) =~= Seq::<JobView>::empty());
    push_opt(&mut jobs, client_jar_job(version, game_dir));
    let ghost head = jobs_view(jobs@);
    let libs = parse_libraries(version, game_dir, context);
    let ghost rs = libs@.map_values(|r: ResolvedLibrary| resolved_view(r));
    let mut i: usize = 0;
    while i < libs.len()
        invariant
            i <= libs.len(),
            rs == libs@.map_values(|r: ResolvedLibrary| resolved_view(r)),
            jobs_view(jobs@) == head + library_jobs(rs.take(i as int)),
        decreases libs.len() - i,
    {
        assert(resolved_view(libs@[i as int]) == rs[i as int]);
        assert(rs.take(i + 1).drop_last() =~= rs.take(i as int));
        let artifact = copy_opt_job(&libs[i].artifact);
        let native = copy_opt_job(&libs[i].native);
        push_opt(&mut jobs, artifact);
        push_opt(&mut jobs, native);
        assert(head + library_jobs(rs.take(i + 1)) =~= head + library_jobs(rs.take(i as int)) + opt_seq(
            rs[i as int].0,
        ) + opt_seq(rs[i as int].1));
        i += 1;
    }
    assert(rs.take(rs.len() as int) =~= rs);
    push_opt(&mut jobs, asset_index_job(version, game_dir));
    push_opt(&mut jobs, logging_config_job(version, game_dir));
    jobs
}

/// The downloads of the asset objects an index lists, each given by its
/// name, hash and size, in the order given.
pub open spec fn asset_jobs_spec(objects: Seq<(String, String, Option<u64>)>, game_dir: Seq<char>) -> Seq<JobView> {
    objects.map_values(|o: (String, String, Option<u64>)| asset_job_spec(o.0@, o.1@, o.2, game_dir))
}

/// The downloads of the asset objects of an index (see `asset_jobs_spec`).
pub fn asset_jobs_from_objects(objects: &Vec<(String, String, Option<u64>)>, game_dir: &str) -> (jobs: Vec<
    DownloadJob,
>)
    ensures
        jobs_view(jobs@) == asset_jobs_spec(objects@, game_dir@),
{
    let mut jobs: Vec<DownloadJob> = Vec::new();
    let mut i: usize = 0;
    while i < objects.len()
        invariant
            i <= objects.len(),
            jobs_view(jobs@) == asset_jobs_spec(objects@.take(i as int), game_dir@),
        decreases objects.len() - i,
    {
        let (name, hash, size) = &objects[i];
        let j = asset_job(name.as_str(), hash.as_str(), *size, game_dir);
        let ghost prev = jobs_view(jobs@);
        let ghost jv = job_view(j);
        jobs.push(j);
        assert(jobs_view(jobs@) =~= prev.push(jv));
        assert(asset_jobs_spec(objects@.take(i + 1), game_dir@) =~= asset_jobs_spec(
            objects@.take(i as int),
            game_dir@,
        ).push(jv));
        i += 1;
    }
    assert(objects@.take(objects.len() as int) =~= objects@);
    jobs
}

/// The jobs still to run: all of them when every file is to be fetched
/// again, else those whose file on disk did not pass its check.
pub open spec fn pending_spec(jobs: Seq<DownloadJob>, valid: Seq<bool>, redownload_all: bool) -> Seq<DownloadJob>
    decreases jobs.len(),
{
    if jobs.len() == 0 {
        Seq::empty()
    } else {
        let prev = pending_spec(jobs.drop_last(), valid.drop_last(), redownload_all);
        if redownload_all || !valid.last() {
            prev.push(jobs.last())
        } else {
            prev
        }
    }
}

/// The jobs still to run; `valid[i]` says whether the file of `jobs[i]`
/// already on disk passed its check.
pub fn pending_jobs(jobs: Vec<DownloadJob>, valid: &Vec<bool>, config: &LauncherConfig) -> (out: Vec<DownloadJob>)
    requires
        valid@.len() == jobs@.len(),
    ensures
        out@ == pending_spec(jobs@, valid@, config.redownload_all_files),
{
    let mut out: Vec<DownloadJob> = Vec::new();
    let mut i: usize = 0;
    assert(jobs@.take(0) =~= Seq::<DownloadJob>::empty());
    while i < jobs.len()
        invariant
            i <= jobs.len(),
            valid@.len() == jobs@.len(),
            out@ == pending_spec(jobs@.take(i as int), valid@.take(i as int), config.redownload_all_files),
        decreases jobs.len() - i,
    {
        assert(jobs@.take(i + 1).drop_last() =~= jobs@.take(i as int));
        assert(jobs@.take(i + 1).last() == jobs@[i as int]);
        assert(valid@.take(i + 1).drop_last() =~= valid@.take(i as int));
        assert(valid@.take(i + 1).last() == valid@[i as int]);
        if config.redownload_all_files || !valid[i] {
            out.push(copy_job(&jobs[i]));
        }
        i += 1;
    }
    assert(jobs@.take(jobs.len() as int) =~= jobs@);
    assert(valid@.take(valid@.len() as int) =~= valid@);
    out
}

/// What a finished run reports: success when nothing failed, else how many
/// downloads failed.
pub fn run_result(summary: DownloadSummary) -> (r: Result<(), String>)
    ensures
        summary.failed == 0 ==> r is Ok,
        summary.failed != 0 ==> (r matches Err(m) && m@ == decimal(summary.failed as nat) + " downloads failed"@),
{
    if summary.failed == 0 {
        Ok(())
    } else {
        let mut t = format_decimal(summary.failed as u64);
        let tail = chars_of(" downloads failed");
        push_all(&mut t, tail.as_slice());
        Err(string_of(t.as_slice()))
    }
}


/// Law: when every file is to be fetched again, no job is skipped.
pub proof fn lemma_redownload_runs_everything(jobs: Seq<DownloadJob>, valid: Seq<bool>)
    requires
        valid.len() == jobs.len(),
    ensures
        pending_spec(jobs, valid, true) == jobs,
    decreases jobs.len(),
{
    if jobs.len() > 0 {
        lemma_redownload_runs_everything(jobs.drop_last(), valid.drop_last());
        assert(jobs.drop_last().push(jobs.last()) =~= jobs);
    }
}

/// Law: a job is kept exactly when its file did not pass its check, unless
/// everything is fetched again; kept jobs stay in their order.
pub proof fn lemma_pending_keeps_unchecked(jobs: Seq<DownloadJob>, valid: Seq<bool>)
    requires
        valid.len() == jobs.len(),
    ensures
        pending_spec(jobs, valid, false).len() + valid.filter(|b: bool| b).len() == jobs.len(),
    decreases jobs.len(),
{
    reveal(Seq::filter);
    if jobs.len() > 0 {
        lemma_pending_keeps_unchecked(jobs.drop_last(), valid.drop_last());
    }
}


/// Where the asset index whose objects are fetched after the core files
/// lies: `<game>/assets/indexes/<id>.json` for the id of the version's
/// index entry; nothing when the entry or its id is missing.
pub open spec fn asset_index_file_spec(v: MinecraftVersionJson, game_dir: Seq<char>) -> Option<Seq<char>> {
    match v.asset_index {
        Some(a) => match a.id {
            Some(i) => Some(asset_index_path(game_dir, i@)),
            None => None,
        },
        None => None,
    }
}

/// The asset index file whose objects are fetched after the core files
/// (see `asset_index_file_spec`).
pub fn asset_index_file(version: &MinecraftVersionJson, game_dir: &str) -> (p: Option<String>)
    ensures
        p.deep_view() == asset_index_file_spec(*version, game_dir@),
{
    match &version.asset_index {
        Some(a) => match &a.id {
            Some(i) => {
                let g = chars_of(game_dir);
                let x = join_path_str(g.as_slice(), "assets");
                let y = join_path_str(x.as_slice(), "indexes");
                let mut file = chars_of(i.as_str());
                let ext = chars_of(".json");
                push_all(&mut file, ext.as_slice());
                let full = join_path(y.as_slice(), file.as_slice());
                Some(string_of(full.as_slice()))
            },
            None => None,
        },
        None => None,
    }
}

} // verus!
