//! The registry of background transcodes that make lightweight proxies of
//! heavy sources.
//!
//! A proxy stands beside its source under a name derived from the source's.
//! The manager decides which file to play and whether a transcode has to be
//! launched; the program that embeds it looks for the proxy on disk, runs
//! the transcoder, and reports when it has ended. At most one transcode per
//! source is in flight at any time.

use vstd::hash_map::StringHashMap;
use vstd::prelude::*;
use vstd::string::StringExecFns;

verus! {

/// What is appended to the stem of a source's file name to name its proxy.
pub const PROXY_MARKER: &'static str = ".kenichi_proxy.mp4";

/// The transcoder that is run where none is shipped with the program.
pub const DEFAULT_TRANSCODER: &'static str = "ffmpeg";

/// A background transcode ended without a proxy.
#[derive(Clone, Copy, Debug, PartialEq, Eq, Structural)]
pub enum ProxyJobError {
    /// The transcoder exited with a failure status.
    TranscoderFailed,
}

/// Which file to play for a source, and whether to launch a transcode.
#[derive(Clone, Debug, PartialEq, Eq)]
pub struct ProxyDecision {
    /// The proxy where it is ready, else the source itself.
    pub path: String,
    /// Whether a transcode of the source has to be launched now.
    pub spawn: bool,
}

/// The program and the arguments of a transcode.
#[derive(Clone, Debug, PartialEq, Eq)]
pub struct TranscodeCommand {
    pub program: String,
    pub args: Vec<String>,
}

/// The sources whose transcode is in flight.
pub struct ProxyManager {
    pub active_jobs: StringHashMap<bool>,
}

/// The arguments of the transcoder for a proxy of `source` at `proxy_path`:
/// scaled to a height of 480 lines, encoded fast for fast decoding, and
/// written over whatever is at `proxy_path`.
pub open spec fn transcode_args(source: Seq<char>, proxy_path: Seq<char>) -> Seq<Seq<char>> {
    seq![
        "-i"@,
        source,
        "-vf"@,
        "scale=-2:480"@,
        "-c:v"@,
        "libx264"@,
        "-preset"@,
        "ultrafast"@,
        "-tune"@,
        "fastdecode"@,
        "-y"@,
        proxy_path,
    ]
}

/// The registry after a request for `source`: a request that launches a
/// transcode enters the source, any other leaves the registry as it is.
pub open spec fn jobs_after_request(jobs: Map<Seq<char>, bool>, source: Seq<char>, ready: bool) -> Map<
    Seq<char>,
    bool,
> {
    if request_spawns(jobs, source, ready) {
        jobs.insert(source, true)
    } else {
        jobs
    }
}

/// Whether a request for `source` launches a transcode: the proxy is not
/// ready and no transcode of the source is in flight.
pub open spec fn request_spawns(jobs: Map<Seq<char>, bool>, source: Seq<char>, ready: bool) -> bool {
    !ready && !jobs.contains_key(source)
}

/// The stem that `std::path::Path::file_stem` gives for a path: the last
/// component without its extension, or nothing where the path has no file
/// name. It is a function of the path alone, read by the path syntax that
/// `std::path` has on the target platform.
pub uninterp spec fn path_file_stem_of(path: Seq<char>) -> Option<Seq<char>>;

/// The path that `std::path::Path::with_file_name` gives for a path and a
/// file name: the path with its last component replaced by the file name.
/// It is a function of the two alone, read by the path syntax that
/// `std::path` has on the target platform.
pub uninterp spec fn path_with_file_name_of(path: Seq<char>, file_name: Seq<char>) -> Seq<char>;

/// The file name of the proxy of a source with this stem, or of one without
/// a file name.
pub open spec fn proxy_name_of(stem: Option<Seq<char>>) -> Seq<char> {
    match stem {
        Some(stem) => stem + PROXY_MARKER@,
        None => PROXY_MARKER@,
    }
}

/// Calls `std::path::Path::file_stem` on `source` and copies the stem that
/// it gives, if it gives one. The stem is a part of `source`, so the copy
/// loses nothing.
#[verifier::external_body]
fn path_file_stem(source: &str) -> (stem: Option<String>)
    ensures
        match stem {
            Some(stem) => path_file_stem_of(source@) == Some(stem@),
            None => path_file_stem_of(source@) is None,
        },
{
    std::path::Path::new(source).file_stem().map(|stem| stem.to_string_lossy().into_owned())
}

/// Calls `std::path::Path::with_file_name` on `source` with `file_name` and
/// copies the path that it gives. Both are text, and so is the path.
#[verifier::external_body]
fn path_with_file_name(source: &str, file_name: &str) -> (path: String)
    ensures
        path@ == path_with_file_name_of(source@, file_name@),
{
    std::path::Path::new(source).with_file_name(file_name).to_string_lossy().into_owned()
}

/// The file name of the proxy of a source whose file name has this stem.
pub fn proxy_file_name(stem: &str) -> (name: String)
    ensures
        name@ == stem@ + PROXY_MARKER@,
{
    let name = String::from_str(stem);
    name.concat(PROXY_MARKER)
}

impl ProxyManager {
    /// A manager without transcodes in flight.
    pub fn new() -> (manager: ProxyManager)
        ensures
            manager.active_jobs@ == Map::<Seq<char>, bool>::empty(),
    {
        ProxyManager { active_jobs: StringHashMap::new() }
    }

    /// The path of the proxy of `source`: the path of the source with its
    /// file name replaced by the stem of that name and the proxy marker. A
    /// source always has the same proxy.
    pub fn get_proxy_path(&self, source: &str) -> (path: String)
        ensures
            path@ == path_with_file_name_of(source@, proxy_name_of(path_file_stem_of(source@))),
    {
        let stem = match path_file_stem(source) {
            Some(stem) => stem,
            None => String::new(),
        };
        let name = proxy_file_name(stem.as_str());
        assert(name@ =~= proxy_name_of(path_file_stem_of(source@)));
        path_with_file_name(source, name.as_str())
    }

    /// Says which file to play for `source` and whether to launch a
    /// transcode, given the path of its proxy and whether the proxy is on
    /// disk.
    ///
    /// A proxy that is ready is played, and the registry is not touched.
    /// Otherwise the source itself is played; a transcode is launched unless
    /// one is in flight for the source, and from then on one is in flight.
    pub fn ensure_proxy(&mut self, source: String, proxy_path: String, proxy_ready: bool) -> (decision:
        ProxyDecision)
        ensures
            decision.path@ == (if proxy_ready {
                proxy_path@
            } else {
                source@
            }),
            decision.spawn == request_spawns(old(self).active_jobs@, source@, proxy_ready),
            final(self).active_jobs@ == jobs_after_request(
                old(self).active_jobs@,
                source@,
                proxy_ready,
            ),
    {
        if proxy_ready {
            return ProxyDecision { path: proxy_path, spawn: false };
        }
        if self.active_jobs.contains_key(source.as_str()) {
            return ProxyDecision { path: source, spawn: false };
        }
        self.active_jobs.insert(source.clone(), true);
        ProxyDecision { path: source, spawn: true }
    }

    /// Records that the transcode of `source` has ended. Whether it made a
    /// proxy or failed, the source is no longer in flight.
    pub fn finish_job(&mut self, source: &str, outcome: Result<(), ProxyJobError>)
        ensures
            final(self).active_jobs@ == old(self).active_jobs@.remove(source@),
    {
        self.active_jobs.remove(source);
    }

    /// The command that makes the proxy of `source` at `proxy_path`: the
    /// transcoder shipped with the program where `sidecar` names one, else
    /// the one on the search path.
    pub fn generate_proxy(&self, source: &str, proxy_path: &str, sidecar: Option<String>) -> (command:
        TranscodeCommand)
        ensures
            command.program@ == (match sidecar {
                Some(program) => program@,
                None => DEFAULT_TRANSCODER@,
            }),
            command.args.deep_view() == transcode_args(source@, proxy_path@),
    {
        let program = match sidecar {
            Some(program) => program,
            None => String::from_str(DEFAULT_TRANSCODER),
        };
        let mut args: Vec<String> = Vec::new();
        args.push(String::from_str("-i"));
        args.push(String::from_str(source));
        args.push(String::from_str("-vf"));
        args.push(String::from_str("scale=-2:480"));
        args.push(String::from_str("-c:v"));
        args.push(String::from_str("libx264"));
        args.push(String::from_str("-preset"));
        args.push(String::from_str("ultrafast"));
        args.push(String::from_str("-tune"));
        args.push(String::from_str("fastdecode"));
        args.push(String::from_str("-y"));
        args.push(String::from_str(proxy_path));
        assert(args.deep_view() =~= transcode_args(source@, proxy_path@));
        TranscodeCommand { program, args }
    }
}

/// What the exit of the transcoder means for the job.
pub fn transcode_outcome(exit_success: bool) -> (outcome: Result<(), ProxyJobError>)
    ensures
        outcome is Ok <==> exit_success,
        outcome is Err ==> outcome->Err_0 == ProxyJobError::TranscoderFailed,
{
    if exit_success {
        Ok(())
    } else {
        Err(ProxyJobError::TranscoderFailed)
    }
}

/// What happens to the registry: a request for a source, with the proxy
/// ready or not, or the end of the transcode of a source.
pub enum ProxyEvent {
    Request { source: Seq<char>, ready: bool },
    Finished { source: Seq<char> },
}

/// The registry after `event`.
pub open spec fn jobs_after(jobs: Map<Seq<char>, bool>, event: ProxyEvent) -> Map<Seq<char>, bool> {
    match event {
        ProxyEvent::Request { source, ready } => jobs_after_request(jobs, source, ready),
        ProxyEvent::Finished { source } => jobs.remove(source),
    }
}

/// The registry after each of `events` in turn.
pub open spec fn jobs_after_all(jobs: Map<Seq<char>, bool>, events: Seq<ProxyEvent>) -> Map<
    Seq<char>,
    bool,
>
    decreases events.len(),
{
    if events.len() == 0 {
        jobs
    } else {
        jobs_after(jobs_after_all(jobs, events.drop_last()), events.last())
    }
}

/// A second request for a source whose proxy was not ready at the first
/// launches no transcode, whatever the first did.
pub proof fn lemma_second_request_never_spawns(
    jobs: Map<Seq<char>, bool>,
    source: Seq<char>,
    ready: bool,
)
    ensures
        !request_spawns(jobs_after_request(jobs, source, false), source, ready),
{
}

/// While the transcode of a source is in flight no other is launched for
/// it: as long as its end is not among the events, the source stays in the
/// registry, and no request for it launches a transcode.
pub proof fn lemma_one_job_per_source(
    jobs: Map<Seq<char>, bool>,
    source: Seq<char>,
    events: Seq<ProxyEvent>,
)
    requires
        jobs.contains_key(source),
        forall|i: int|
            0 <= i < events.len() ==> #[trigger] events[i] != (ProxyEvent::Finished { source }),
    ensures
        jobs_after_all(jobs, events).contains_key(source),
        forall|ready: bool| !request_spawns(jobs_after_all(jobs, events), source, ready),
    decreases events.len(),
{
    if events.len() > 0 {
        lemma_one_job_per_source(jobs, source, events.drop_last());
        assert(events.last() == events[events.len() - 1]);
    }
}

} // verus!
