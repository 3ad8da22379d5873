use cargo_bundle::bundle::{bundle_project, BundleError, BundleStep, PackageType};

type Outcome = Result<Vec<String>, BundleError<String>>;

/// Drives a run, answering the bundler of each format from `answer`, and
/// records the formats that were bundled.
fn drive(
    types: Vec<PackageType>,
    windows_host: bool,
    answer: impl Fn(PackageType) -> Result<Vec<String>, String>,
) -> (Vec<PackageType>, Outcome) {
    let mut bundled = Vec::new();
    let mut step: BundleStep<String, String> = bundle_project(types, windows_host);
    loop {
        match step {
            BundleStep::Bundle { run, package_type } => {
                bundled.push(package_type);
                step = run.resume(answer(package_type));
            }
            BundleStep::Finished(result) => return (bundled, result),
        }
    }
}

fn artifact(package_type: PackageType) -> Result<Vec<String>, String> {
    Ok(vec![format!("{package_type:?}-1"), format!("{package_type:?}-2")])
}

#[test]
fn bundles_every_format_in_order() {
    let (bundled, result) = drive(vec![PackageType::Deb, PackageType::Rpm], false, artifact);
    assert_eq!(bundled, vec![PackageType::Deb, PackageType::Rpm]);
    assert_eq!(
        result.unwrap(),
        vec!["Deb-1", "Deb-2", "Rpm-1", "Rpm-2"]
    );
}

#[test]
fn no_formats_give_no_artifacts() {
    let (bundled, result) = drive(Vec::new(), false, artifact);
    assert!(bundled.is_empty());
    assert!(result.unwrap().is_empty());
}

#[test]
fn exe_bundle_is_refused_off_windows() {
    let types = vec![PackageType::Deb, PackageType::WindowsBundle, PackageType::Rpm];
    let (bundled, result) = drive(types, false, artifact);
    assert_eq!(bundled, vec![PackageType::Deb]);
    assert!(matches!(result, Err(BundleError::UnsupportedHost)));
    assert_eq!(
        BundleError::<String>::unsupported_host_message(),
        ".exe bundling is only supported on Windows hosts"
    );
}

#[test]
fn exe_bundle_runs_on_windows() {
    let types = vec![PackageType::Deb, PackageType::WindowsBundle, PackageType::WindowsMsi];
    let (bundled, result) = drive(types.clone(), true, artifact);
    assert_eq!(bundled, types);
    assert_eq!(result.unwrap().len(), 6);
}

#[test]
fn first_failing_bundler_stops_the_run() {
    let types = vec![PackageType::OsxBundle, PackageType::OsxDmg, PackageType::AppImage];
    let (bundled, result) = drive(types, false, |t| {
        if t == PackageType::OsxDmg {
            Err("hdiutil failed".to_string())
        } else {
            artifact(t)
        }
    });
    assert_eq!(bundled, vec![PackageType::OsxBundle, PackageType::OsxDmg]);
    match result {
        Err(BundleError::Bundler(e)) => assert_eq!(e, "hdiutil failed"),
        other => panic!("unexpected outcome {other:?}"),
    }
}

#[test]
fn failure_before_refused_exe_bundle_wins() {
    let types = vec![PackageType::Deb, PackageType::WindowsBundle];
    let (_, result) = drive(types, false, |_| Err("dpkg failed".to_string()));
    assert!(matches!(result, Err(BundleError::Bundler(_))));
}

#[test]
fn refused_exe_bundle_first_runs_nothing() {
    let (bundled, result) = drive(
        vec![PackageType::WindowsBundle, PackageType::Deb],
        false,
        artifact,
    );
    assert!(bundled.is_empty());
    assert!(matches!(result, Err(BundleError::UnsupportedHost)));
}
