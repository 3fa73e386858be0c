use gits::delegate::{
    check_delegate_init, check_primary_repository, delegate_program, exit_code_from,
    metadata_dir_variable, plan_init_delegate, plan_passthrough, secondary_dir_name,
    work_tree_variable,
};
use gits::errors::{FsOperation, GitsError};
use gits::exclude::secondary_name;
use gits::router::{route, Route};

#[test]
fn route_selects_init() {
    let args = vec!["init".to_string()];
    assert_eq!(route(&args), Route::Init);
}

#[test]
fn route_ignores_arguments_after_the_keyword() {
    let args = vec!["init".to_string(), "extra".to_string()];
    assert_eq!(route(&args), Route::Init);
}

#[test]
fn route_forwards_other_subcommands() {
    let args = vec!["status".to_string()];
    assert_eq!(route(&args), Route::Passthrough);
}

#[test]
fn route_forwards_empty_command_line() {
    let args: Vec<String> = Vec::new();
    assert_eq!(route(&args), Route::Passthrough);
}

#[test]
fn route_forwards_leading_flags() {
    let args = vec!["--version".to_string()];
    assert_eq!(route(&args), Route::Passthrough);
}

#[test]
fn route_does_not_match_init_later_in_the_line() {
    let args = vec!["commit".to_string(), "init".to_string()];
    assert_eq!(route(&args), Route::Passthrough);
}

#[test]
fn init_outside_primary_repository_is_refused() {
    let verdict = check_primary_repository(false);
    assert_eq!(verdict, Err(GitsError::NotAPrimaryRepository));
}

#[test]
fn init_inside_primary_repository_goes_ahead() {
    assert_eq!(check_primary_repository(true), Ok(()));
}

#[test]
fn passthrough_before_init_is_refused() {
    let args = vec!["status".to_string()];
    let planned = plan_passthrough(
        false,
        "/work/.gits".to_string(),
        "/work".to_string(),
        args,
    );
    assert!(matches!(planned, Err(GitsError::SecondaryRepoNotInitialized)));
}

#[test]
fn passthrough_plan_preserves_arguments_in_order() {
    let args = vec!["add".to_string(), "-f".to_string(), "secret.txt".to_string()];
    let planned = plan_passthrough(
        true,
        "/work/.gits".to_string(),
        "/work".to_string(),
        args.clone(),
    );
    let command = planned.unwrap();
    assert_eq!(command.args, args);
    assert_eq!(command.metadata_dir, "/work/.gits".to_string());
    assert_eq!(command.work_tree, Some("/work".to_string()));
}

#[test]
fn init_delegate_plan_runs_init_without_work_tree() {
    let command = plan_init_delegate("/work/.gits".to_string());
    assert_eq!(command.args, vec!["init".to_string()]);
    assert_eq!(command.metadata_dir, "/work/.gits".to_string());
    assert_eq!(command.work_tree, None);
}

#[test]
fn delegate_init_spawn_failure() {
    let verdict = check_delegate_init(false, None);
    assert_eq!(verdict, Err(GitsError::DelegateSpawnFailed));
}

#[test]
fn delegate_init_success() {
    assert_eq!(check_delegate_init(true, Some(0)), Ok(()));
}

#[test]
fn delegate_init_nonzero_exit() {
    let verdict = check_delegate_init(true, Some(128));
    assert_eq!(verdict, Err(GitsError::DelegateInitFailed));
}

#[test]
fn delegate_init_killed_child() {
    let verdict = check_delegate_init(true, None);
    assert_eq!(verdict, Err(GitsError::DelegateInitFailed));
}

#[test]
fn exit_code_is_the_childs_own() {
    assert_eq!(exit_code_from(Some(7)), 7);
    assert_eq!(exit_code_from(Some(0)), 0);
    assert_eq!(exit_code_from(Some(1)), 1);
}

#[test]
fn exit_code_defaults_to_one_without_a_code() {
    assert_eq!(exit_code_from(None), 1);
}

#[test]
fn delegate_names() {
    assert_eq!(delegate_program(), "git");
    assert_eq!(metadata_dir_variable(), "GIT_DIR");
    assert_eq!(work_tree_variable(), "GIT_WORK_TREE");
    assert_eq!(secondary_dir_name(), ".gits");
}

#[test]
fn secondary_dir_name_matches_exclude_entry() {
    assert_eq!(secondary_dir_name().as_bytes().to_vec(), secondary_name());
}

#[test]
fn error_messages() {
    assert_eq!(
        GitsError::NotAPrimaryRepository.message(),
        "Not in a git repository. Initialize a git repository first."
    );
    assert_eq!(
        GitsError::SecondaryRepoNotInitialized.message(),
        ".gits directory not found. Run 'gits init' first."
    );
    assert_eq!(
        GitsError::DelegateInitFailed.message(),
        "Failed to initialize git repository in .gits"
    );
    assert_eq!(GitsError::DelegateSpawnFailed.message(), "Failed to execute git");
    assert_eq!(
        GitsError::Filesystem(FsOperation::ReadExcludeFile).message(),
        "A filesystem operation failed"
    );
}

#[test]
fn filesystem_operation_descriptions() {
    assert_eq!(
        FsOperation::CreateSecondaryDir.describe(),
        "create the .gits directory"
    );
    assert_eq!(
        FsOperation::CreateExcludeParent.describe(),
        "create the exclude file's directory"
    );
    assert_eq!(FsOperation::OpenExcludeFile.describe(), "open the exclude file");
    assert_eq!(FsOperation::ReadExcludeFile.describe(), "read the exclude file");
    assert_eq!(FsOperation::WriteExcludeFile.describe(), "write to the exclude file");
}
