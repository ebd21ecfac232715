use beam::environment::{
    environment_file_name, environment_file_path_for_workspace, next_default_environment_name,
    selected_environment_label,
};
use std::path::PathBuf;

fn options(labels: &[&str]) -> Vec<(u128, String)> {
    labels
        .iter()
        .enumerate()
        .map(|(i, l)| (i as u128, l.to_string()))
        .collect()
}

#[test]
fn environment_file_path_uses_selected_workspace_directory() {
    let environments_dir = PathBuf::from("/tmp/beam-tests/other-workspace").join("environments");
    assert_eq!(
        environment_file_path_for_workspace(&environments_dir, "prod.env.toml"),
        Some(
            PathBuf::from("/tmp/beam-tests/other-workspace")
                .join("environments")
                .join("prod.env.toml")
        )
    );
    assert_eq!(environment_file_path_for_workspace(&environments_dir, "   "), None);
}

#[test]
fn file_names_are_trimmed() {
    assert_eq!(environment_file_name("  dev.env.toml \n"), Some("dev.env.toml".to_string()));
    assert_eq!(environment_file_name(""), None);
}

#[test]
fn the_first_free_name_is_chosen() {
    assert_eq!(next_default_environment_name(&options(&[])), "New Environment");
    assert_eq!(next_default_environment_name(&options(&["Prod"])), "New Environment");
    assert_eq!(
        next_default_environment_name(&options(&["new environment"])),
        "New Environment 2"
    );
    assert_eq!(
        next_default_environment_name(&options(&[
            "New Environment",
            "NEW ENVIRONMENT 2",
            "New Environment 4"
        ])),
        "New Environment 3"
    );
    assert_eq!(
        next_default_environment_name(&options(&[
            "New Environment 3",
            "New Environment 2",
            "New Environment"
        ])),
        "New Environment 4"
    );
}

#[test]
fn selected_environment_label_names_the_selected_option() {
    let opts = options(&["Default", "Staging", "Production"]);
    assert_eq!(selected_environment_label(&opts, Some(1)), "Staging");
    assert_eq!(selected_environment_label(&opts, Some(7)), "No environment");
    assert_eq!(selected_environment_label(&opts, None), "No environment");
    assert_eq!(selected_environment_label(&[], Some(0)), "No environment");
}

#[test]
fn the_trimmed_name_is_joined_onto_the_directory() {
    let dir = PathBuf::from("/tmp/envs");
    assert_eq!(
        environment_file_path_for_workspace(&dir, "  dev.env.toml \n"),
        Some(PathBuf::from("/tmp/envs/dev.env.toml"))
    );
    assert_eq!(environment_file_path_for_workspace(&dir, "   "), None);
}
