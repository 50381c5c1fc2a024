use dotfilesvault::Config;
use dotfilesvault::DotfilesError;
use dotfilesvault::backup::Dotfile;
use dotfilesvault::backup::backup_all_dotfiles;
use dotfilesvault::backup::backup_specific_dotfiles;
use dotfilesvault::fsmodel::FileSystem;
use dotfilesvault::history::Repository;
use dotfilesvault::history::commit_changes;
use dotfilesvault::history::get_dotfile_history;
use dotfilesvault::paths::FilePath;
use dotfilesvault::restore::list_backed_up_dotfiles;
use dotfilesvault::restore::restore_specific_dotfile;
use dotfilesvault::utils::human_readable_size;
use dotfilesvault::utils::u64_to_string;

fn p(s: &str) -> FilePath {
    FilePath::parse(s)
}

fn fresh_env() -> (Config, FileSystem) {
    let mut fs = FileSystem::empty();
    fs.add_dir(&p("/home"));
    let config = Config::new(p("/home/dotfilesvault"), p("/home"));
    (config, fs)
}

#[test]
fn backup_restore_history_scenario() {
    // Home root holds a dotfile with content "A" and a regular file
    let (config, mut fs) = fresh_env();
    let mut repo: Option<Repository> = None;
    fs.write_file(&p("/home/.bashrc"), "A".to_string());
    fs.write_file(&p("/home/regular.txt"), "plain".to_string());

    // Backup everything: the dotfile lands in the vault, the regular file does not
    backup_all_dotfiles(&config, &mut fs).unwrap();
    assert_eq!(fs.read_file(&p("/home/dotfilesvault/.bashrc")).unwrap(), "A");
    assert!(fs.read_file(&p("/home/dotfilesvault/regular.txt")).is_none());

    // Commit, then change the original
    commit_changes(&config, &mut fs, &mut repo, "initial", 100).unwrap();
    fs.write_file(&p("/home/.bashrc"), "B".to_string());

    // Restoring brings the backed-up content back
    restore_specific_dotfile(&config, &mut fs, ".bashrc").unwrap();
    assert_eq!(fs.read_file(&p("/home/.bashrc")).unwrap(), "A");

    // One version exists, carrying the commit message
    let history = get_dotfile_history(&config, &fs, &repo, ".bashrc").unwrap();
    assert_eq!(history.len(), 1);
    assert_eq!(history[0].message, "initial");
}

#[test]
fn history_after_three_cycles() {
    // Three backup-and-commit cycles, each changing the same file, yield
    // exactly three versions, latest first, with the supplied messages
    let (config, mut fs) = fresh_env();
    let mut repo: Option<Repository> = None;

    for (content, message, stamp) in [("one", "first", 10i64), ("two", "second", 20), ("three", "third", 30)] {
        fs.write_file(&p("/home/.bashrc"), content.to_string());
        backup_all_dotfiles(&config, &mut fs).unwrap();
        commit_changes(&config, &mut fs, &mut repo, message, stamp).unwrap();
    }

    let history = get_dotfile_history(&config, &fs, &repo, ".bashrc").unwrap();
    assert_eq!(history.len(), 3);
    assert_eq!(history[0].message, "third");
    assert_eq!(history[1].message, "second");
    assert_eq!(history[2].message, "first");
    assert_eq!(history[0].commit_id, "3");
    assert_eq!(history[1].commit_id, "2");
    assert_eq!(history[2].commit_id, "1");
    assert_eq!(history[0].timestamp, 30);
}

#[test]
fn missing_vault_guard() {
    // Before any backup, listing fails because the vault root does not exist
    let (config, fs) = fresh_env();
    match list_backed_up_dotfiles(&config, &fs) {
        Err(DotfilesError::NoDotfilesVaultDir) => {},
        _ => panic!("expected the missing-vault error"),
    }

    // With the vault file present but the snapshot log never initialized,
    // history also fails with the missing-vault error
    let mut fs2 = fs;
    fs2.write_file(&p("/home/dotfilesvault/.bashrc"), "A".to_string());
    let repo: Option<Repository> = None;
    match get_dotfile_history(&config, &fs2, &repo, ".bashrc") {
        Err(DotfilesError::NoDotfilesVaultDir) => {},
        _ => panic!("expected the missing-vault error"),
    }
}

#[test]
fn history_of_never_backed_up_file() {
    // Before any backup at all, asking for a file's history reports the
    // file as not found: its vault-side copy does not exist yet
    let (config, fs) = fresh_env();
    let repo: Option<Repository> = None;
    match get_dotfile_history(&config, &fs, &repo, ".bashrc") {
        Err(DotfilesError::DotfileNotFound(name)) => assert_eq!(name, ".bashrc"),
        _ => panic!("expected the not-found error"),
    }
}

#[test]
fn history_of_path_outside_vault() {
    // An absolute path outside both roots maps onto itself, not into the
    // vault, so no vault-relative key exists for it
    let (config, fs) = fresh_env();
    let repo: Option<Repository> = None;
    match get_dotfile_history(&config, &fs, &repo, "/elsewhere/.bashrc") {
        Err(DotfilesError::DotfileNotFound(name)) => assert_eq!(name, "/elsewhere/.bashrc"),
        _ => panic!("expected the not-found error"),
    }
}

#[test]
fn backup_specific_missing_file_aborts() {
    let (config, mut fs) = fresh_env();
    fs.write_file(&p("/home/.present"), "x".to_string());

    let files = vec![".present".to_string(), ".missing".to_string()];
    match backup_specific_dotfiles(&config, &mut fs, &files) {
        Err(DotfilesError::DotfileNotFound(name)) => assert_eq!(name, ".missing"),
        _ => panic!("expected the not-found error"),
    }

    // The file named before the missing one was still backed up (fail-fast,
    // no rollback)
    assert_eq!(fs.read_file(&p("/home/dotfilesvault/.present")).unwrap(), "x");
}

#[test]
fn backup_specific_skips_non_dotfiles() {
    let (config, mut fs) = fresh_env();
    fs.write_file(&p("/home/notes.txt"), "n".to_string());

    let files = vec!["notes.txt".to_string()];
    backup_specific_dotfiles(&config, &mut fs, &files).unwrap();

    // Skipped silently: nothing was copied
    assert!(fs.read_file(&p("/home/dotfilesvault/notes.txt")).is_none());
}

#[test]
fn backup_specific_dotfile_directory_fails_copy() {
    let (config, mut fs) = fresh_env();
    fs.add_dir(&p("/home/.confdir"));

    let files = vec![".confdir".to_string()];
    match backup_specific_dotfiles(&config, &mut fs, &files) {
        Err(DotfilesError::Io(_)) => {},
        _ => panic!("expected the copy failure"),
    }
}

#[test]
fn restore_non_dotfile_is_no_op() {
    let (config, mut fs) = fresh_env();
    fs.write_file(&p("/home/dotfilesvault/notes.txt"), "n".to_string());

    restore_specific_dotfile(&config, &mut fs, "notes.txt").unwrap();
    assert!(fs.read_file(&p("/home/notes.txt")).is_none());
}

#[test]
fn restore_missing_vault_copy_fails() {
    let (config, mut fs) = fresh_env();
    match restore_specific_dotfile(&config, &mut fs, ".absent") {
        Err(DotfilesError::DotfileNotFound(name)) => assert_eq!(name, "/home/.absent"),
        _ => panic!("expected the not-found error"),
    }
}

#[test]
fn commit_skips_ignored_names() {
    // Temporary files under the vault are not staged; others are
    let (config, mut fs) = fresh_env();
    let mut repo: Option<Repository> = None;
    fs.add_dir(&p("/home/dotfilesvault"));
    fs.write_file(&p("/home/dotfilesvault/.bashrc"), "A".to_string());
    fs.write_file(&p("/home/dotfilesvault/scratch.tmp"), "t".to_string());
    fs.write_file(&p("/home/dotfilesvault/save.bak"), "b".to_string());

    commit_changes(&config, &mut fs, &mut repo, "snap", 5).unwrap();

    let commits = &repo.as_ref().unwrap().commits;
    let head = commits.last().unwrap();
    let names: Vec<String> = head.tree.iter().map(|q| q.render()).collect();
    assert!(names.iter().any(|n| n == ".bashrc"));
    assert!(names.iter().any(|n| n == ".gitignore"));
    assert!(!names.iter().any(|n| n == "scratch.tmp"));
    assert!(!names.iter().any(|n| n == "save.bak"));
}

#[test]
fn mapping_keeps_outside_paths_verbatim() {
    // A path that does not lie under the home root maps onto itself: an
    // absolute suffix replaces the vault root entirely when joined
    let (config, _fs) = fresh_env();
    let dotfile = Dotfile::new(p("/outside/.zshrc"), &config);
    assert_eq!(dotfile.vault_path.render(), "/outside/.zshrc");

    // A path under the home root mirrors below the vault root
    let inside = Dotfile::new(p("/home/.zshrc"), &config);
    assert_eq!(inside.vault_path.render(), "/home/dotfilesvault/.zshrc");
}

#[test]
fn mapping_round_trip_concrete() {
    // Mapping into the vault and stripping the vault root recovers exactly
    // the original path's remainder below the home root
    let config = Config::new(p("/home/dotfilesvault"), p("/home"));
    let original = p("/home/.config/app/.rc");
    let dotfile = Dotfile::new(original.dup(), &config);
    let recovered = dotfile.vault_path.strip_prefix(&config.vault_dir).unwrap();
    let suffix = original.strip_prefix(&config.home_dir).unwrap();
    assert!(recovered.eq_path(&suffix));
    assert_eq!(recovered.render(), ".config/app/.rc");
}

#[test]
fn path_parse_render_round_trip() {
    assert_eq!(p("/a//b/").render(), "/a/b");
    assert_eq!(p("a/b/c").render(), "a/b/c");
    assert_eq!(p("/").render(), "/");
    assert_eq!(p("").render(), "");
    assert_eq!(p("/home/user/.vimrc").render(), "/home/user/.vimrc");
}

#[test]
fn decimal_rendering_exact_values() {
    assert_eq!(u64_to_string(0), "0");
    assert_eq!(u64_to_string(7), "7");
    assert_eq!(u64_to_string(10), "10");
    assert_eq!(u64_to_string(1234567890), "1234567890");
    assert_eq!(u64_to_string(u64::MAX), "18446744073709551615");
}

#[test]
fn largest_units_format() {
    assert_eq!(human_readable_size(1024 * 1024 * 1024 * 1024 * 1024), "1.00 PB");
    // Beyond the largest named unit the value keeps growing
    assert_eq!(human_readable_size(1024 * 1024 * 1024 * 1024 * 1024 * 2048), "2048.00 PB");
}

#[test]
fn overwriting_keeps_one_entry_per_path() {
    // Writing the same vault key twice leaves a single listed entry with the
    // latest content
    let (config, mut fs) = fresh_env();
    fs.add_dir(&p("/home/dotfilesvault"));
    fs.write_file(&p("/home/dotfilesvault/.bashrc"), "old".to_string());
    fs.write_file(&p("/home/dotfilesvault/.bashrc"), "new".to_string());

    let listed = list_backed_up_dotfiles(&config, &fs).unwrap();
    assert_eq!(listed.len(), 1);
    assert_eq!(listed[0].render(), ".bashrc");
    assert_eq!(fs.read_file(&p("/home/dotfilesvault/.bashrc")).unwrap(), "new");
}

#[test]
fn discovery_excludes_vault_contents() {
    // A dotfile inside the vault root is never discovered, even though its
    // name matches
    let (config, mut fs) = fresh_env();
    fs.write_file(&p("/home/.bashrc"), "A".to_string());
    fs.write_file(&p("/home/dotfilesvault/.sneaky"), "s".to_string());

    let dotfiles = dotfilesvault::backup::find_dotfiles(&config, &fs).unwrap();
    assert_eq!(dotfiles.len(), 1);
    assert_eq!(dotfiles[0].original_path.render(), "/home/.bashrc");
}
