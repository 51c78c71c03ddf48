use img2pdf::tools::{
    bundled_candidates, candidate_path, find_realesrgan, find_scantailor, first_existing,
    tool_candidates,
};

#[test]
fn explicit_path_wins_when_it_is_a_file() {
    let explicit = Some("/bin/sh".to_string());
    let env = Some("/usr/bin/env".to_string());
    let found = find_scantailor(&explicit, &env, "/nonexistent-root", &vec![], false);
    assert_eq!(found, Some("/bin/sh".to_string()));
}

#[test]
fn missing_explicit_path_falls_back_to_environment() {
    let explicit = Some("/nonexistent/scantailor-cli".to_string());
    let env = Some("/bin/sh".to_string());
    let found = find_realesrgan(&explicit, &env, "/nonexistent-root", &vec![], false);
    assert_eq!(found, Some("/bin/sh".to_string()));
}

#[test]
fn nothing_found_anywhere() {
    let dirs = vec!["/nonexistent-a".to_string(), "/nonexistent-b".to_string()];
    assert_eq!(find_scantailor(&None, &None, "/nonexistent-root", &dirs, false), None);
    assert_eq!(find_realesrgan(&None, &None, "/nonexistent-root", &dirs, true), None);
}

#[test]
fn candidates_follow_the_search_order() {
    let explicit = Some("/given/st".to_string());
    let env = Some("/env/st".to_string());
    let dirs = vec!["/p1".to_string(), "/p2".to_string()];
    let names = vec!["st", "st.exe"];
    let paths: Vec<String> =
        tool_candidates(&explicit, &env, "/root", &dirs, &names).iter().map(candidate_path).collect();
    assert_eq!(
        paths,
        vec![
            "/given/st", "/env/st", "/root/tools/st", "/root/tools/st.exe", "/root/st", "/root/st.exe",
            "/p1/st", "/p1/st.exe", "/p2/st", "/p2/st.exe",
        ]
    );
    let none: Vec<String> = tool_candidates(&None, &None, "/root", &vec![], &vec!["st"]).iter().map(candidate_path).collect();
    assert_eq!(none, vec!["/root/tools/st", "/root/st"]);
}

#[test]
fn bundled_candidates_go_name_by_name() {
    let dirs = vec!["/p".to_string()];
    let paths: Vec<String> =
        bundled_candidates("/root", &dirs, &vec!["pdfinfo", "pdfinfo.exe"]).iter().map(candidate_path).collect();
    assert_eq!(
        paths,
        vec!["/root/tools/pdfinfo", "/root/pdfinfo", "/root/tools/pdfinfo.exe", "/root/pdfinfo.exe", "/p/pdfinfo", "/p/pdfinfo.exe"]
    );
}

#[test]
fn first_existing_takes_the_first_yes() {
    let c = vec!["a".to_string(), "b".to_string(), "c".to_string()];
    assert_eq!(first_existing(&c, &vec![false, true, true]), Some("b".to_string()));
    assert_eq!(first_existing(&c, &vec![true]), Some("a".to_string()));
    assert_eq!(first_existing(&c, &vec![false, false]), None);
    assert_eq!(first_existing(&c, &vec![]), None);
}
