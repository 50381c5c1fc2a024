use dotfilesvault::Config;
use dotfilesvault::backup::backup_all_dotfiles;
use dotfilesvault::backup::find_dotfiles;
use dotfilesvault::fsmodel::FileSystem;
use dotfilesvault::history::Repository;
use dotfilesvault::history::commit_changes;
use dotfilesvault::history::get_dotfile_history;
use dotfilesvault::is_dotfile;
use dotfilesvault::paths::FilePath;
use dotfilesvault::restore::list_backed_up_dotfiles;
use dotfilesvault::restore::restore_specific_dotfile;

fn p(s: &str) -> FilePath {
    FilePath::parse(s)
}

/// Set up a test environment with dotfiles
fn setup_test_env() -> (Config, FileSystem) {
    let mut fs = FileSystem::empty();
    fs.add_dir(&p("/base/home"));
    fs.add_dir(&p("/base/dotfilesvault"));

    // Create test dotfiles with some content
    for dotfile in [".bashrc", ".vimrc", ".gitconfig", ".config/app/settings.json"] {
        let path = format!("/base/home/{}", dotfile);
        let content = format!("# Test content for {}\n", dotfile);
        fs.write_file(&p(&path), content);
    }

    // Create a non-dotfile
    fs.write_file(&p("/base/home/regular.txt"), "This is not a dotfile\n".to_string());

    let config = Config::new(p("/base/dotfilesvault"), p("/base/home"));
    (config, fs)
}

#[test]
fn test_full_backup_and_restore_flow() {
    // Set up test environment
    let (config, mut fs) = setup_test_env();
    let mut repo: Option<Repository> = None;

    // Step 1: Find dotfiles
    let dotfiles = find_dotfiles(&config, &fs).unwrap();

    // Verify we found the expected number of dotfiles
    assert_eq!(dotfiles.len(), 3);

    // Step 2: Backup all dotfiles
    backup_all_dotfiles(&config, &mut fs).unwrap();

    // Step 3: Commit changes
    let commit_id = commit_changes(&config, &mut fs, &mut repo, "Test backup", 1000).unwrap();
    assert!(!commit_id.is_empty());

    // Step 4: List backed up dotfiles
    let backed_up = list_backed_up_dotfiles(&config, &fs).unwrap();

    // Just make sure our dotfiles are included
    let has_bashrc = backed_up.iter().any(|q| q.render().contains(".bashrc"));
    let has_vimrc = backed_up.iter().any(|q| q.render().contains(".vimrc"));
    let has_gitconfig = backed_up.iter().any(|q| q.render().contains(".gitconfig"));

    assert!(has_bashrc);
    assert!(has_vimrc);
    assert!(has_gitconfig);

    // Step 5: Modify a dotfile in the home directory
    fs.write_file(&p("/base/home/.bashrc"), "# Modified content\n".to_string());

    // Step 6: Restore the dotfile
    restore_specific_dotfile(&config, &mut fs, ".bashrc").unwrap();

    // Step 7: Verify the content was restored
    let content = fs.read_file(&p("/base/home/.bashrc")).unwrap();
    assert!(content.contains("# Test content for .bashrc"));

    // Step 8: Get history of the dotfile
    let history = get_dotfile_history(&config, &fs, &repo, ".bashrc").unwrap();
    assert!(!history.is_empty());
}

#[test]
fn test_dotfile_detection() {
    // Set up test environment
    let (config, _fs) = setup_test_env();

    // Test various paths
    assert!(is_dotfile(&p(".bashrc")));
    assert!(is_dotfile(&config.home_dir.join(&p(".vimrc"))));
    assert!(is_dotfile(&p("/home/user/.config")));

    assert!(!is_dotfile(&p("regular.txt")));
    assert!(!is_dotfile(&config.home_dir.join(&p("regular.txt"))));
    assert!(!is_dotfile(&p("/home/user/documents")));
}

#[test]
fn test_nested_dotfiles() {
    // Set up test environment
    let (config, mut fs) = setup_test_env();

    // Create a nested dotfile structure
    fs.write_file(
        &p("/base/home/.config/nested/.nestedrc"),
        "# Nested dotfile content\n".to_string(),
    );

    // Backup all dotfiles
    backup_all_dotfiles(&config, &mut fs).unwrap();

    // List backed up dotfiles
    let backed_up = list_backed_up_dotfiles(&config, &fs).unwrap();

    // Check if the nested dotfile was backed up
    let has_nested = backed_up.iter().any(|q| q.render().contains(".config/nested/.nestedrc"));
    assert!(has_nested);
}
