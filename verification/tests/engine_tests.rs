use dotfilesvault::Config;
use dotfilesvault::backup::Dotfile;
use dotfilesvault::backup::backup_dotfile;
use dotfilesvault::backup::find_dotfiles;
use dotfilesvault::fsmodel::FileSystem;
use dotfilesvault::history::commit_changes;
use dotfilesvault::history::init_git_repo;
use dotfilesvault::history::Repository;
use dotfilesvault::paths::FilePath;
use dotfilesvault::restore::list_backed_up_dotfiles;
use dotfilesvault::restore::restore_dotfile;

fn p(s: &str) -> FilePath {
    FilePath::parse(s)
}

fn backup_env() -> (Config, FileSystem) {
    let mut fs = FileSystem::empty();

    // A test dotfile and a non-dotfile in the home directory
    fs.write_file(&p("/home/.testrc"), String::new());
    fs.write_file(&p("/home/regular.txt"), String::new());

    let config = Config::new(p("/vault"), p("/home"));
    (config, fs)
}

#[test]
fn test_find_dotfiles() {
    let (config, fs) = backup_env();

    let dotfiles = find_dotfiles(&config, &fs).unwrap();

    // Should find exactly one dotfile
    assert_eq!(dotfiles.len(), 1);
    assert!(dotfiles[0].original_path.render().contains(".testrc"));
}

#[test]
fn test_backup_dotfile() {
    let (config, mut fs) = backup_env();

    // Initialize the vault directory
    config.init_vault_dir(&mut fs).unwrap();

    // Find the test dotfile
    let dotfiles = find_dotfiles(&config, &fs).unwrap();
    assert_eq!(dotfiles.len(), 1);

    // Backup the dotfile
    backup_dotfile(&dotfiles[0], &mut fs).unwrap();

    // Check if the file was backed up
    assert!(fs.file_exists(&dotfiles[0].vault_path));
}

fn restore_env() -> (Config, FileSystem) {
    let mut fs = FileSystem::empty();
    let config = Config::new(p("/vault"), p("/home"));

    // Create the vault directory with a test dotfile in it
    fs.add_dir(&p("/vault"));
    fs.write_file(&p("/vault/.testrc"), "test content\n".to_string());

    (config, fs)
}

#[test]
fn test_restore_dotfile() {
    let (config, mut fs) = restore_env();

    // Create a dotfile object for the home-side location
    let original_path = p("/home/.testrc");
    let dotfile = Dotfile::new(original_path.dup(), &config);

    // Restore the dotfile
    restore_dotfile(&dotfile, &mut fs).unwrap();

    // Check if the file was restored
    assert!(fs.file_exists(&original_path));

    // Check the content
    let content = fs.read_file(&original_path).unwrap();
    assert!(content.contains("test content"));
}

#[test]
fn test_list_backed_up_dotfiles() {
    let (config, mut fs) = restore_env();

    // Create some test dotfiles in the vault
    fs.write_file(&p("/vault/.bashrc"), String::new());
    fs.write_file(&p("/vault/.vimrc"), String::new());

    // List backed up dotfiles
    let backed_up = list_backed_up_dotfiles(&config, &fs).unwrap();

    // Should find at least the two dotfiles we created
    assert!(backed_up.len() >= 2);

    // Check if our test dotfiles are in the list
    let has_bashrc = backed_up.iter().any(|q| q.render().contains(".bashrc"));
    let has_vimrc = backed_up.iter().any(|q| q.render().contains(".vimrc"));

    assert!(has_bashrc);
    assert!(has_vimrc);
}

#[test]
fn test_init_git_repo() {
    let config = Config::new(p("/base/dotfilesvault"), p("/base/home"));
    let mut fs = FileSystem::empty();
    fs.add_dir(&p("/base/dotfilesvault"));
    fs.add_dir(&p("/base/home"));
    let mut repo: Option<Repository> = None;

    // Initialize the snapshot log
    init_git_repo(&config, &mut fs, &mut repo).unwrap();

    // Check that it is a fresh, empty log
    assert!(repo.as_ref().unwrap().commits.is_empty());

    // Initialization leaves its trace in the vault: the ignore file
    assert!(fs.file_exists(&p("/base/dotfilesvault/.gitignore")));
}

#[test]
fn test_commit_changes() {
    let config = Config::new(p("/base/dotfilesvault"), p("/base/home"));
    let mut fs = FileSystem::empty();
    fs.add_dir(&p("/base/dotfilesvault"));
    fs.add_dir(&p("/base/home"));
    let mut repo: Option<Repository> = None;

    // Initialize the snapshot log
    init_git_repo(&config, &mut fs, &mut repo).unwrap();

    // Create a test file
    fs.write_file(&p("/base/dotfilesvault/test.txt"), "test content\n".to_string());

    // Commit the changes
    let commit_id = commit_changes(&config, &mut fs, &mut repo, "Test commit", 1000).unwrap();

    // Check if the commit ID is valid
    assert!(!commit_id.is_empty());

    // Check the head commit
    let commits = &repo.as_ref().unwrap().commits;
    let head = commits.last().unwrap();
    assert_eq!(head.message, "Test commit");
}
