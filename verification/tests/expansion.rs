use lldb_attach::expand_variables;
use lldb_attach::infer_home_from_path;

#[test]
fn expands_braced_home() {
    assert_eq!(expand_variables("${HOME}/a.out", "/home/alice"), "/home/alice/a.out");
}

#[test]
fn expands_bare_home() {
    assert_eq!(expand_variables("$HOME/bin:$HOME/lib", "/home/alice"), "/home/alice/bin:/home/alice/lib");
}

#[test]
fn expands_user_from_home_shape() {
    assert_eq!(expand_variables("/run/${USER}/sock-$USER", "/home/bob"), "/run/bob/sock-bob");
}

#[test]
fn no_user_expansion_without_home_shape() {
    assert_eq!(expand_variables("${USER}/x", "/opt/custom"), "${USER}/x");
    assert_eq!(expand_variables("${HOME}/x", "/opt/custom"), "/opt/custom/x");
}

#[test]
fn empty_home_leaves_input_unchanged() {
    assert_eq!(expand_variables("${HOME}/a.out", ""), "${HOME}/a.out");
    assert_eq!(expand_variables("$USER", ""), "$USER");
}

#[test]
fn expansion_idempotent_on_placeholder_free_input() {
    let home = "/home/alice";
    let x = "/srv/data/a.out";
    let once = expand_variables(x, home);
    let twice = expand_variables(&once, home);
    assert_eq!(once, twice);
    assert_eq!(once, x);
}

#[test]
fn expands_all_occurrences() {
    assert_eq!(
        expand_variables("${HOME}/a:${HOME}/b", "/home/alice"),
        "/home/alice/a:/home/alice/b"
    );
}

#[test]
fn infers_home_from_workspace_path() {
    assert_eq!(infer_home_from_path("/home/alice/proj", "/fallback"), "/home/alice");
}

#[test]
fn infers_home_from_first_occurrence() {
    assert_eq!(infer_home_from_path("/mnt/home/a/b", "/fallback"), "/home/a");
}

#[test]
fn home_without_trailing_slash_falls_back() {
    assert_eq!(infer_home_from_path("/home/alice", "/fallback"), "/fallback");
}

#[test]
fn no_home_segment_falls_back() {
    assert_eq!(infer_home_from_path("/srv/work", "/fallback"), "/fallback");
    assert_eq!(infer_home_from_path("/srv/work", ""), "");
}

#[test]
fn empty_user_segment() {
    assert_eq!(infer_home_from_path("/home//x", "/fallback"), "/home/");
}
