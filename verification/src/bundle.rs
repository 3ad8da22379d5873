//! Bundling a project into each requested package format in turn.
//!
//! The bundlers themselves write files and run tools, so the driver that
//! calls them stands outside; what is decided here is which bundler runs
//! next, when the run stops, and what it hands back: the artifacts of all
//! bundlers in the order of the requested formats, or the first failure.
use vstd::prelude::*;

verus! {

/// A package format that a project can be bundled into.
#[derive(Clone, Copy, Debug, PartialEq, Eq, Structural)]
pub enum PackageType {
    OsxBundle,
    OsxDmg,
    IosBundle,
    WindowsMsi,
    WxsMsi,
    WindowsBundle,
    Deb,
    Rpm,
    AppImage,
}

/// Why bundling a project stopped.
#[derive(Debug)]
pub enum BundleError<E> {
    /// A Windows `.exe` bundle was requested on a host other than Windows.
    UnsupportedHost,
    /// A bundler failed with this error.
    Bundler(E),
}

impl<E> BundleError<E> {
    /// The message that a refused `.exe` bundle is reported with.
    pub fn unsupported_host_message() -> (message: String)
        ensures
            message@ == ".exe bundling is only supported on Windows hosts"@,
    {
        ".exe bundling is only supported on Windows hosts".to_owned()
    }
}

/// Whether the bundler for a format can run on this host: the `.exe`
/// bundler runs on Windows hosts only, every other one anywhere.
pub open spec fn runs_on_host(package_type: PackageType, windows_host: bool) -> bool {
    !(package_type == PackageType::WindowsBundle && !windows_host)
}

/// A bundling run in progress: the requested formats, the host, how many
/// bundlers have finished, and the artifacts they produced.
pub struct BundleRun<P> {
    package_types: Vec<PackageType>,
    windows_host: bool,
    next: usize,
    paths: Vec<P>,
}

impl<P> View for BundleRun<P> {
    type V = (Seq<PackageType>, bool, int, Seq<P>);

    closed spec fn view(&self) -> Self::V {
        (self.package_types@, self.windows_host, self.next as int, self.paths@)
    }
}

/// What the driver is to do next: run the bundler of one format and hand
/// its result back with `resume`, or stop with this result.
pub enum BundleStep<P, E> {
    Bundle { run: BundleRun<P>, package_type: PackageType },
    Finished(Result<Vec<P>, BundleError<E>>),
}

/// The step that follows once the bundlers before position `next` have
/// produced `paths`: stop with all artifacts when no format is left, stop
/// when the next format cannot be built on this host, else run its bundler.
pub open spec fn is_step_at<P, E>(
    step: BundleStep<P, E>,
    package_types: Seq<PackageType>,
    windows_host: bool,
    next: int,
    paths: Seq<P>,
) -> bool {
    if next >= package_types.len() {
        step matches BundleStep::Finished(Ok(done)) && done@ == paths
    } else if !runs_on_host(package_types[next], windows_host) {
        step matches BundleStep::Finished(Err(BundleError::UnsupportedHost))
    } else {
        step matches BundleStep::Bundle { run, package_type } && package_type == package_types[next]
            && run@ == (package_types, windows_host, next, paths)
    }
}

/// The result of bundling each format in order, where `results[k]` is what
/// the bundler of the `k`-th format returns: the artifacts of all of them
/// concatenated, or the first failure, a format that this host cannot
/// build counting as a failure at its place.
pub open spec fn bundle_outcome<P, E>(
    package_types: Seq<PackageType>,
    windows_host: bool,
    results: Seq<Result<Seq<P>, E>>,
) -> Result<Seq<P>, BundleError<E>>
    decreases package_types.len(),
{
    if package_types.len() == 0 {
        Ok(Seq::<P>::empty())
    } else if !runs_on_host(package_types[0], windows_host) {
        Err(BundleError::UnsupportedHost)
    } else {
        match results[0] {
            Err(e) => Err(BundleError::Bundler(e)),
            Ok(first) => match bundle_outcome(package_types.drop_first(), windows_host, results.drop_first()) {
                Ok(rest) => Ok(first + rest),
                Err(failure) => Err(failure),
            },
        }
    }
}

/// The result that a driver ends with when it starts from position `next`
/// with artifacts `paths` and answers each bundler step in turn with the
/// next element of `results`.
pub open spec fn driven_outcome<P, E>(
    package_types: Seq<PackageType>,
    windows_host: bool,
    next: int,
    paths: Seq<P>,
    results: Seq<Result<Seq<P>, E>>,
) -> Result<Seq<P>, BundleError<E>>
    decreases package_types.len() - next,
{
    if next >= package_types.len() || next < 0 {
        Ok(paths)
    } else if !runs_on_host(package_types[next], windows_host) {
        Err(BundleError::UnsupportedHost)
    } else {
        match results[0] {
            Err(e) => Err(BundleError::Bundler(e)),
            Ok(produced) => driven_outcome(
                package_types,
                windows_host,
                next + 1,
                paths + produced,
                results.drop_first(),
            ),
        }
    }
}

fn step_at<P, E>(run: BundleRun<P>) -> (step: BundleStep<P, E>)
    requires
        run.next <= run.package_types@.len(),
    ensures
        is_step_at(step, run@.0, run@.1, run@.2, run@.3),
{
    if run.next == run.package_types.len() {
        return BundleStep::Finished(Ok(run.paths));
    }
    let package_type = run.package_types[run.next];
    match package_type {
        PackageType::WindowsBundle => {
            if !run.windows_host {
                return BundleStep::Finished(Err(BundleError::UnsupportedHost));
            }
        },
        _ => {},
    }
    BundleStep::Bundle { run, package_type }
}

/// Starts bundling a project into each of the requested formats, in order,
/// on a host that is Windows or not.
pub fn bundle_project<P, E>(package_types: Vec<PackageType>, windows_host: bool) -> (step: BundleStep<P, E>)
    ensures
        is_step_at(step, package_types@, windows_host, 0, Seq::<P>::empty()),
{
    let run = BundleRun { package_types, windows_host, next: 0, paths: Vec::new() };
    step_at(run)
}

impl<P> BundleRun<P> {
    /// Whether the run is waiting for the result of a bundler that can run.
    pub open spec fn awaits_bundler(&self) -> bool {
        &&& 0 <= self@.2 < self@.0.len()
        &&& runs_on_host(self@.0[self@.2], self@.1)
    }

    /// Hands back what the bundler of the current format returned: its
    /// artifacts are kept and the run moves to the next format, or the run
    /// stops with its error.
    pub fn resume<E>(self, outcome: Result<Vec<P>, E>) -> (step: BundleStep<P, E>)
        requires
            self.awaits_bundler(),
        ensures
            match outcome {
                Err(e) => step matches BundleStep::Finished(Err(BundleError::Bundler(f))) && f == e,
                Ok(produced) => is_step_at(step, self@.0, self@.1, self@.2 + 1, self@.3 + produced@),
            },
    {
        match outcome {
            Err(e) => BundleStep::Finished(Err(BundleError::Bundler(e))),
            Ok(produced) => {
                let mut run = self;
                let count = run.package_types.len();
                assert(run.next < count);
                let mut produced = produced;
                run.paths.append(&mut produced);
                run.next = run.next + 1;
                step_at(run)
            },
        }
    }
}

/// The result of a finished run, its artifacts taken as a sequence.
pub open spec fn finished_view<P, E>(result: Result<Vec<P>, BundleError<E>>) -> Result<Seq<P>, BundleError<E>> {
    match result {
        Ok(paths) => Ok(paths@),
        Err(failure) => Err(failure),
    }
}

/// The artifacts of a sequence of successful bundler results, concatenated.
pub open spec fn all_artifacts<P, E>(results: Seq<Result<Seq<P>, E>>) -> Seq<P>
    decreases results.len(),
{
    if results.len() == 0 {
        Seq::<P>::empty()
    } else {
        match results[0] {
            Ok(first) => first + all_artifacts(results.drop_first()),
            Err(_) => Seq::<P>::empty(),
        }
    }
}

/// Each step that `bundle_project` and `resume` hand out agrees with the
/// result of driving the run on: a finished step holds that result, and a
/// bundler step leads to it through the result that the bundler returns.
pub proof fn lemma_step_agrees_with_driven_outcome<P, E>(
    step: BundleStep<P, E>,
    package_types: Seq<PackageType>,
    windows_host: bool,
    next: int,
    paths: Seq<P>,
    results: Seq<Result<Seq<P>, E>>,
)
    requires
        0 <= next,
        is_step_at(step, package_types, windows_host, next, paths),
    ensures
        step matches BundleStep::Finished(result) ==> finished_view(result) == driven_outcome(
            package_types,
            windows_host,
            next,
            paths,
            results,
        ),
        step matches BundleStep::Bundle { run, package_type } ==> run.awaits_bundler() && driven_outcome(
            package_types,
            windows_host,
            next,
            paths,
            results,
        ) == match results[0] {
            Err(e) => Err(BundleError::Bundler(e)),
            Ok(produced) => driven_outcome(
                package_types,
                windows_host,
                next + 1,
                paths + produced,
                results.drop_first(),
            ),
        },
{
}

/// Driving a run from its start gives the artifacts of every bundler in
/// the order of the requested formats, or the first failure.
pub proof fn lemma_driven_outcome_is_bundle_outcome<P, E>(
    package_types: Seq<PackageType>,
    windows_host: bool,
    results: Seq<Result<Seq<P>, E>>,
)
    ensures
        driven_outcome(package_types, windows_host, 0, Seq::<P>::empty(), results) == bundle_outcome(
            package_types,
            windows_host,
            results,
        ),
{
    lemma_driven_from(package_types, windows_host, 0, Seq::<P>::empty(), results);
    assert(package_types.skip(0) == package_types);
    match bundle_outcome(package_types, windows_host, results) {
        Ok(all) => {
            assert(Seq::<P>::empty() + all == all);
        },
        Err(_) => {},
    }
}

proof fn lemma_driven_from<P, E>(
    package_types: Seq<PackageType>,
    windows_host: bool,
    next: int,
    paths: Seq<P>,
    results: Seq<Result<Seq<P>, E>>,
)
    requires
        0 <= next <= package_types.len(),
    ensures
        driven_outcome(package_types, windows_host, next, paths, results) == match bundle_outcome(
            package_types.skip(next),
            windows_host,
            results,
        ) {
            Ok(rest) => Ok(paths + rest),
            Err(failure) => Err(failure),
        },
    decreases package_types.len() - next,
{
    let tail = package_types.skip(next);
    if next == package_types.len() {
        assert(tail.len() == 0);
        assert(paths + Seq::<P>::empty() == paths);
    } else {
        assert(tail[0] == package_types[next]);
        assert(tail.drop_first() == package_types.skip(next + 1));
        if runs_on_host(package_types[next], windows_host) {
            match results[0] {
                Ok(produced) => {
                    lemma_driven_from(
                        package_types,
                        windows_host,
                        next + 1,
                        paths + produced,
                        results.drop_first(),
                    );
                    match bundle_outcome(package_types.skip(next + 1), windows_host, results.drop_first()) {
                        Ok(rest) => {
                            assert(paths + produced + rest == paths + (produced + rest));
                        },
                        Err(_) => {},
                    }
                },
                Err(_) => {},
            }
        }
    }
}

/// On a Windows host, when every bundler succeeds, the run succeeds with
/// the artifacts of all of them in order.
pub proof fn lemma_windows_host_bundles_every_format<P, E>(
    package_types: Seq<PackageType>,
    results: Seq<Result<Seq<P>, E>>,
)
    requires
        results.len() == package_types.len(),
        forall|k: int| 0 <= k < results.len() ==> #[trigger] results[k] is Ok,
    ensures
        bundle_outcome(package_types, true, results) == Ok::<Seq<P>, BundleError<E>>(all_artifacts(results)),
    decreases package_types.len(),
{
    if package_types.len() > 0 {
        assert(results[0] is Ok);
        let rest = results.drop_first();
        assert forall|k: int| 0 <= k < rest.len() implies #[trigger] rest[k] is Ok by {
            assert(rest[k] == results[k + 1]);
        }
        lemma_windows_host_bundles_every_format(package_types.drop_first(), rest);
    }
}

/// On any other host, a requested `.exe` bundle stops the run with
/// `UnsupportedHost` unless a bundler before it failed.
pub proof fn lemma_exe_bundle_refused_off_windows<P, E>(
    package_types: Seq<PackageType>,
    results: Seq<Result<Seq<P>, E>>,
    k: int,
)
    requires
        0 <= k < package_types.len(),
        k <= results.len(),
        package_types[k] == PackageType::WindowsBundle,
        forall|j: int| 0 <= j < k ==> #[trigger] results[j] is Ok,
    ensures
        bundle_outcome(package_types, false, results) == Err::<Seq<P>, BundleError<E>>(
            BundleError::UnsupportedHost,
        ),
    decreases k,
{
    if k > 0 {
        assert(results[0] is Ok);
        let rest = results.drop_first();
        assert forall|j: int| 0 <= j < k - 1 implies #[trigger] rest[j] is Ok by {
            assert(rest[j] == results[j + 1]);
        }
        assert(package_types.drop_first()[k - 1] == package_types[k]);
        if runs_on_host(package_types[0], false) {
            lemma_exe_bundle_refused_off_windows(package_types.drop_first(), rest, k - 1);
        }
    }
}

/// Only the `.exe` bundle depends on the host: at any position whose format
/// is another one, the step handed out runs that format's bundler, on every
/// host, Windows or not.
pub proof fn lemma_other_formats_run_on_every_host<P, E>(
    step: BundleStep<P, E>,
    package_types: Seq<PackageType>,
    windows_host: bool,
    next: int,
    paths: Seq<P>,
)
    requires
        0 <= next < package_types.len(),
        package_types[next] != PackageType::WindowsBundle,
        is_step_at(step, package_types, windows_host, next, paths),
    ensures
        step matches BundleStep::Bundle { run, package_type } && package_type == package_types[next]
            && run@ == (package_types, windows_host, next, paths),
{
}

/// When no `.exe` bundle is requested and every bundler succeeds, the run
/// succeeds on any host with the artifacts of all bundlers in order.
pub proof fn lemma_without_exe_bundle_every_host_succeeds<P, E>(
    package_types: Seq<PackageType>,
    windows_host: bool,
    results: Seq<Result<Seq<P>, E>>,
)
    requires
        results.len() == package_types.len(),
        forall|k: int| 0 <= k < package_types.len() ==> #[trigger] package_types[k] != PackageType::WindowsBundle,
        forall|k: int| 0 <= k < results.len() ==> #[trigger] results[k] is Ok,
    ensures
        bundle_outcome(package_types, windows_host, results) == Ok::<Seq<P>, BundleError<E>>(
            all_artifacts(results),
        ),
    decreases package_types.len(),
{
    if package_types.len() > 0 {
        assert(results[0] is Ok);
        assert(package_types[0] != PackageType::WindowsBundle);
        let rest = results.drop_first();
        let types = package_types.drop_first();
        assert forall|k: int| 0 <= k < rest.len() implies #[trigger] rest[k] is Ok by {
            assert(rest[k] == results[k + 1]);
        }
        assert forall|k: int| 0 <= k < types.len() implies #[trigger] types[k] != PackageType::WindowsBundle by {
            assert(types[k] == package_types[k + 1]);
        }
        lemma_without_exe_bundle_every_host_succeeds(types, windows_host, rest);
    }
}

} // verus!


