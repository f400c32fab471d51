use activity_graph::find_repositories::{
    analyze_dir, is_repository, link_is_relative_to_parent, RepositorySet,
};
use activity_graph::model::ProjectMetadata;

fn names(list: &[Option<&str>]) -> Vec<Option<String>> {
    list.iter().map(|name| name.map(|n| n.to_string())).collect()
}

#[test]
fn a_directory_with_a_git_directory_is_a_repository() {
    assert!(is_repository(&names(&[Some("src"), Some(".git"), None])));
    assert!(!is_repository(&names(&[Some("src"), Some(".gitignore"), Some("git"), None])));
    assert!(!is_repository(&Vec::new()));
}

#[test]
fn a_repository_is_recorded_with_name_and_path() {
    let mut found = RepositorySet::new();
    let visit = analyze_dir(
        &mut found,
        "/code/project",
        Some("project"),
        &names(&[Some("src"), Some(".git"), None, Some("docs")]),
        None,
    );
    assert_eq!(found.as_vec(), &vec![ProjectMetadata::new("project".to_string(), "/code/project".to_string())]);
    assert_eq!(visit.descend, vec![0, 3]);
    assert_eq!(visit.depth, None);
}

#[test]
fn a_directory_without_a_name_is_not_recorded() {
    let mut found = RepositorySet::new();
    let visit = analyze_dir(&mut found, "/", None, &names(&[Some(".git"), Some("home")]), Some(3));
    assert_eq!(found.len(), 0);
    assert_eq!(visit.descend, vec![1]);
    assert_eq!(visit.depth, Some(2));
}

#[test]
fn the_search_stops_below_the_depth_that_was_asked_for() {
    let mut found = RepositorySet::new();
    let entries = names(&[Some(".git"), Some("sub")]);
    let visit = analyze_dir(&mut found, "/a", Some("a"), &entries, Some(0));
    assert_eq!(visit.descend, vec![1]);
    assert_eq!(visit.depth, Some(-1));
    let visit = analyze_dir(&mut found, "/a/sub", Some("sub"), &entries, Some(-1));
    assert!(visit.descend.is_empty());
    assert_eq!(visit.depth, Some(-1));
    // a repository is recorded even where the search goes no deeper
    assert_eq!(found.len(), 2);
    let visit = analyze_dir(&mut found, "/b", Some("b"), &entries, Some(i32::MIN));
    assert!(visit.descend.is_empty());
    assert_eq!(visit.depth, Some(i32::MIN));
}

#[test]
fn a_repository_is_recorded_once() {
    let mut found = RepositorySet::new();
    let entries = names(&[Some(".git")]);
    analyze_dir(&mut found, "/a", Some("a"), &entries, None);
    analyze_dir(&mut found, "/a", Some("a"), &entries, None);
    analyze_dir(&mut found, "/b/a", Some("a"), &entries, None);
    assert_eq!(found.len(), 2);
    assert!(found.contains(&ProjectMetadata::new("a".to_string(), "/b/a".to_string())));
    assert!(!found.contains(&ProjectMetadata::new("b".to_string(), "/b/a".to_string())));
    found.insert(ProjectMetadata::new("a".to_string(), "/a".to_string()));
    assert_eq!(found.len(), 2);
}

#[test]
fn a_relative_link_is_taken_from_the_directory_of_the_link() {
    assert!(link_is_relative_to_parent(false, true));
    assert!(!link_is_relative_to_parent(true, true));
    assert!(!link_is_relative_to_parent(false, false));
    assert!(!link_is_relative_to_parent(true, false));
}
