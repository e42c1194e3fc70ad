use supervisor::capabilities::updates::backend::{Backend, InstallStep, UpdateCandidate};
use supervisor::capabilities::updates::dnf::check::{
    outdated, parse_upgrades, query_prefix, upgrade_query, with_installed, Outdated, UPGRADE_FORMAT,
};
use supervisor::capabilities::updates::dnf::install::parse_install_step;
use supervisor::capabilities::updates::dnf::DnfBackend;

// Captured from dnf5 5.4.5 on Fedora 44, run as a normal user.
const UPGRADES: &str = "\
curl x86_64 8.18.0-10.fc44 updates 245961 491563
vim-minimal x86_64 2:9.2.1119-1.fc44 updates 917712 1884323
";

const INSTALLED: &str = "\
curl x86_64 8.18.0-4.fc44
vim-minimal x86_64 2:9.2.240-1.fc44
";

#[test]
fn a_check_joins_each_upgrade_to_its_installed_version() {
    let packages = with_installed(parse_upgrades(UPGRADES).unwrap(), INSTALLED);

    assert_eq!(
        packages[1],
        UpdateCandidate {
            name: "vim-minimal".to_string(),
            old_version: "2:9.2.240-1.fc44".to_string(),
            new_version: "2:9.2.1119-1.fc44".to_string(),
            download_size: 917712,
            installed_size: 1884323,
            repository: "updates".to_string(),
        }
    );
    assert_eq!(packages[0].old_version, "8.18.0-4.fc44");
}

#[test]
fn dnf4s_blank_lines_are_skipped() {
    // dnf4 (CentOS Stream 9) ends each line twice.
    let upgrades = parse_upgrades("tzdata noarch 2026c-1.el9 baseos 926398 1917852\n\n").unwrap();
    assert_eq!(upgrades.len(), 1);
}

#[test]
fn an_installed_package_of_another_arch_is_not_the_old_version() {
    let packages = with_installed(parse_upgrades(UPGRADES).unwrap(), "curl i686 8.0-1.fc44\n");
    assert_eq!(packages[0].old_version, "");
}

#[test]
fn a_line_in_another_format_is_an_error_not_a_skipped_package() {
    assert!(parse_upgrades("curl x86_64 8.18.0-10.fc44 updates %{downloadsize} 491563\n").is_err());
    assert!(parse_upgrades("Updating and loading repositories:\n").is_err());
}

#[test]
fn dnf5_transaction_lines_are_steps() {
    let step =
        parse_install_step("[ 4/12] Upgrading vim-minimal-2:9.2.111 100% |  75.0 MiB/s |   1.8 MiB |  00m00s");
    assert_eq!(step, Some(InstallStep { current: 4, total: 12, package: "vim-minimal".to_string() }));

    let step =
        parse_install_step("[12/12] Removing curl-0:8.18.0-4.fc44.x 100% | 236.0   B/s |  18.0   B |  00m00s");
    assert_eq!(step.unwrap().package, "curl");
}

#[test]
fn dnf5_downloads_and_setup_steps_are_not() {
    assert_eq!(
        parse_install_step("[1/5] curl-0:8.18.0-10.fc44.x86_64      100% | 416.3 KiB/s | 240.2 KiB |  00m01s"),
        None
    );
    assert_eq!(
        parse_install_step("[ 1/12] Verify package files            100% | 416.0   B/s |   5.0   B |  00m00s"),
        None
    );
    assert_eq!(parse_install_step("Upgrading:"), None);
}

#[test]
fn dnf4_transaction_lines_are_steps_and_its_verify_pass_is_not() {
    let step =
        parse_install_step("  Upgrading        : libcurl-minimal-7.76.1-43.el9.x86_64                   1/6 ");
    assert_eq!(step, Some(InstallStep { current: 1, total: 6, package: "libcurl-minimal".to_string() }));
    let step =
        parse_install_step("  Cleanup          : vim-minimal-2:9.2.240-1.fc40.x86_64                    5/6 ");
    assert_eq!(step.unwrap().package, "vim-minimal");

    assert_eq!(
        parse_install_step("  Verifying        : curl-minimal-7.76.1-43.el9.x86_64                      1/6 "),
        None
    );
    assert_eq!(
        parse_install_step("  Running scriptlet: libcurl-minimal-7.76.1-41.el9.x86_64                   6/6 "),
        None
    );
    assert_eq!(
        parse_install_step("  Preparing        :                                                        1/1 "),
        None
    );
}

#[test]
fn the_install_goes_through_polkit_and_refreshes_roots_cache() {
    let command = DnfBackend.install_command();
    assert_eq!(command.program, "pkexec");
    assert_eq!(command.arguments, ["env", "LC_ALL=C", "dnf", "upgrade", "-y", "--refresh"]);
}

#[test]
fn the_installed_versions_are_asked_for_by_name() {
    match outdated(UPGRADES) {
        Ok(Outdated::Query { arguments, upgrades }) => {
            assert_eq!(arguments[..2], ["--installed", "--qf"]);
            assert_eq!(arguments[3..], ["curl", "vim-minimal"]);
            assert_eq!(upgrades.len(), 2);
        }
        other => panic!("{other:?}"),
    }
    assert!(matches!(outdated("\n"), Ok(Outdated::UpToDate)));
    match outdated("gibberish\n") {
        Err(message) => assert_eq!(message, "unreadable dnf line: gibberish"),
        Ok(_) => panic!("accepted"),
    }
}

#[test]
fn a_backend_reads_its_own_progress() {
    assert_eq!(DnfBackend.name(), "dnf");
    assert_eq!(
        DnfBackend.parse_install_step("[ 4/12] Upgrading curl-0:8.18.0-10.fc44.x 100% |"),
        Some(InstallStep { current: 4, total: 12, package: "curl".to_string() })
    );
}

#[test]
fn a_query_asks_for_the_latest_of_each_upgrade_and_trusts_no_stale_repo() {
    assert_eq!(
        query_prefix(),
        ["repoquery", "--quiet", "--latest-limit=1", "--setopt=skip_if_unavailable=False"]
    );
    assert_eq!(upgrade_query(), ["--refresh", "--upgrades", "--qf", UPGRADE_FORMAT]);
}
