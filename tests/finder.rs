use find::cache::DirCache;
use find::docset::sql_query;
use find::finder::Finder;
use find::items::{complete_input, join_path, label_of, parent_input, parent_input_from};
use find::matching::{match_entries, score_candidate};
use find::query::{parse_query, split_query};
use find::rank::{adjust_score, rank_matches};

fn parts(input: &str) -> (String, String, bool) {
    let q = split_query(input);
    (q.search_dir, q.pattern, q.recursive)
}

fn strings(xs: &[&str]) -> Vec<String> {
    xs.iter().map(|s| s.to_string()).collect()
}

#[test]
fn parser_splits_at_last_slash_flat() {
    assert_eq!(parts("src/main.rs"), ("src/".to_string(), "main.rs".to_string(), false));
}

#[test]
fn parser_slash_space_is_recursive() {
    assert_eq!(parts("src/ main"), ("src/".to_string(), "main".to_string(), true));
}

#[test]
fn parser_leading_space_is_recursive_from_root() {
    assert_eq!(parts(" foo"), ("".to_string(), "foo".to_string(), true));
}

#[test]
fn parser_bare_word_is_flat() {
    assert_eq!(parts("foo"), ("".to_string(), "foo".to_string(), false));
}

#[test]
fn parser_root_relative_directory() {
    let q = parse_query("/etc/sys");
    assert_eq!((q.search_dir.as_str(), q.pattern.as_str(), q.recursive), ("/etc/", "sys", false));
}

#[test]
fn parser_first_slash_space_wins() {
    assert_eq!(parts("a/ b/ c"), ("a/".to_string(), "b/ c".to_string(), true));
}

#[test]
fn parser_trailing_slash_gives_empty_pattern() {
    assert_eq!(parts("x/"), ("x/".to_string(), "".to_string(), false));
}

#[test]
fn parse_query_keeps_root_marker() {
    let q = parse_query("src/main.rs");
    assert_eq!((q.search_dir.as_str(), q.pattern.as_str(), q.recursive), ("src/", "main.rs", false));
    let q = parse_query("/etc/ sys");
    assert_eq!((q.search_dir.as_str(), q.pattern.as_str(), q.recursive), ("/etc/", "sys", true));
    let q = parse_query("/ foo");
    assert_eq!((q.search_dir.as_str(), q.pattern.as_str(), q.recursive), ("/", "foo", true));
    let q = parse_query("/foo");
    assert_eq!((q.search_dir.as_str(), q.pattern.as_str(), q.recursive), ("/", "foo", false));
    let q = parse_query(" foo");
    assert_eq!((q.search_dir.as_str(), q.pattern.as_str(), q.recursive), ("", "foo", true));
    let q = parse_query("");
    assert_eq!((q.search_dir.as_str(), q.pattern.as_str(), q.recursive), ("", "", false));
}

#[test]
fn cache_same_key_walks_once() {
    let mut cache = DirCache::new();
    let mut walks = 0;
    for _ in 0..3 {
        let r = cache.get_or_populate("/home/u/", false, |_: &str, _: bool| {
            walks += 1;
            Ok::<Vec<String>, String>(strings(&["a", "b/"]))
        });
        assert_eq!(*r.unwrap(), strings(&["a", "b/"]));
    }
    assert_eq!(walks, 1);
}

#[test]
fn cache_key_change_walks_again() {
    let mut cache = DirCache::new();
    let mut seen: Vec<(String, bool)> = Vec::new();
    let keys = [("/d/", false), ("/d/", false), ("/d/", true), ("/d/", true), ("/e/", true), ("/d/", true)];
    for (dir, rec) in keys {
        let r = cache.get_or_populate(dir, rec, |d: &str, r: bool| {
            seen.push((d.to_string(), r));
            Ok::<Vec<String>, String>(vec![format!("{d}{r}")])
        });
        assert_eq!(*r.unwrap(), vec![format!("{dir}{rec}")]);
    }
    assert_eq!(
        seen,
        vec![
            ("/d/".to_string(), false),
            ("/d/".to_string(), true),
            ("/e/".to_string(), true),
            ("/d/".to_string(), true),
        ]
    );
}

#[test]
fn cache_failed_walk_is_not_cached() {
    let mut cache = DirCache::new();
    let r = cache.get_or_populate("/x/", false, |_: &str, _: bool| Err::<Vec<String>, String>("denied".to_string()));
    assert_eq!(r.unwrap_err(), "denied");
    let mut walks = 0;
    let r = cache.get_or_populate("/x/", false, |_: &str, _: bool| {
        walks += 1;
        Ok::<Vec<String>, String>(strings(&["f"]))
    });
    assert_eq!(*r.unwrap(), strings(&["f"]));
    assert_eq!(walks, 1);
}

#[test]
fn adjusted_score_exact_values() {
    assert_eq!(adjust_score("foo", 0), 50);
    assert_eq!(adjust_score("foo/", 0), 41);
    assert_eq!(adjust_score("src/", 100), 151);
    assert_eq!(adjust_score("a/b/c/d/e/f", 10), 10);
    assert_eq!(adjust_score("a/b/c/d/e/f/", 10), 12);
    assert_eq!(adjust_score("x", u32::MAX), u32::MAX as u64 + 50);
}

#[test]
fn directory_marking_raises_score_at_equal_depth() {
    // Same separator count: the directory bonus wins.
    assert_eq!(adjust_score("ab/", 7), 48);
    assert_eq!(adjust_score("a/b", 7), 47);
    assert!(adjust_score("a/b/c/d/e/f/", 0) > adjust_score("a/b/c/d/e/f", 0));
    assert!(adjust_score("a/b/c/d/e/f/g/", 300) > adjust_score("a/b/c/d/e/f/g", 300));
}

#[test]
fn deeper_paths_score_no_more() {
    assert_eq!(adjust_score("a/b", 10), 50);
    assert_eq!(adjust_score("a/b/c", 10), 40);
    assert_eq!(adjust_score("a/b/c/d/e", 10), 20);
    assert_eq!(adjust_score("a/b/c/d/e/f", 10), 10);
    assert_eq!(adjust_score("a/b/c/d/e/f/g/h", 10), 10);
}

#[test]
fn ties_are_sorted_by_path() {
    let ms = vec![("b".to_string(), 5), ("a".to_string(), 5), ("c".to_string(), 5), ("d".to_string(), 9)];
    let r = rank_matches(&ms);
    assert_eq!(
        r,
        vec![("d".to_string(), 59), ("a".to_string(), 55), ("b".to_string(), 55), ("c".to_string(), 55)]
    );
}

#[test]
fn result_cap_keeps_highest_hundred() {
    let ms: Vec<(String, u32)> = (0..150u32).map(|i| (format!("f{i:03}"), i)).collect();
    let r = rank_matches(&ms);
    assert_eq!(r.len(), 100);
    for (k, (path, score)) in r.iter().enumerate() {
        let raw = 149 - k as u32;
        assert_eq!(path, &format!("f{raw:03}"));
        assert_eq!(*score, raw as u64 + 50);
    }
}

#[test]
fn empty_pattern_keeps_every_entry_unscored() {
    let entries = strings(&["zeta", "alpha/", "x/y"]);
    let r = match_entries("", &entries);
    assert_eq!(r, vec![("zeta".to_string(), 0), ("alpha/".to_string(), 0), ("x/y".to_string(), 0)]);
}

#[test]
fn matcher_filters_non_matches() {
    let entries = strings(&["main.rs", "lib.rs", "Cargo.toml", "src/"]);
    let r = match_entries("mai", &entries);
    let paths: Vec<&str> = r.iter().map(|(p, _)| p.as_str()).collect();
    assert_eq!(paths, vec!["main.rs"]);
    assert!(r[0].1 > 0);
    assert!(score_candidate("xyz", "main.rs").is_none());
    assert_eq!(score_candidate("", "anything"), Some(0));
    assert_eq!(score_candidate("mai", "main.rs"), Some(r[0].1));
}

#[test]
fn label_has_fixed_format() {
    assert_eq!(label_of("src/", 151), "src/    (151)");
    assert_eq!(label_of("a", 0), "a    (0)");
}

#[test]
fn complete_drills_into_directory() {
    assert_eq!(complete_input("src/", "foo/bar.rs"), "src/foo/");
    assert_eq!(complete_input("src/", "foo/"), "src/foo/");
    assert_eq!(complete_input("/etc/", "x/y"), "/etc/x/");
    assert_eq!(complete_input("", "x"), "");
}

#[test]
fn parent_dir_keeps_pattern() {
    assert_eq!(parent_input("a/b/", "pat"), "a/ pat");
    assert_eq!(parent_input("a/", "p"), " p");
    assert_eq!(parent_input("", "p"), " p");
    assert_eq!(parent_input("/etc/", "x"), "/ x");
    assert_eq!(parent_input("/", "x"), "/ x");
    assert_eq!(parent_input_from(None, "/", "q"), "/ q");
    assert_eq!(parent_input_from(Some("usr/lib"), "usr/lib/x/", ""), "usr/lib/ ");
}

#[test]
fn join_follows_path_rules() {
    assert_eq!(join_path("/home/u", "src/"), "/home/u/src/");
    assert_eq!(join_path("/home/u/", "x"), "/home/u/x");
    assert_eq!(join_path("/home/u", "/etc/"), "/etc/");
    assert_eq!(join_path("/home/u", ""), "/home/u/");
    assert_eq!(join_path("", "x"), "x");
}

#[test]
fn sql_query_strips_quotes() {
    assert_eq!(
        sql_query("foo'bar;\""),
        "SELECT DISTINCT name FROM searchIndex WHERE name LIKE '%foobar%' LIMIT 0,30;"
    );
    assert_eq!(sql_query(""), "SELECT DISTINCT name FROM searchIndex WHERE name LIKE '%%' LIMIT 0,30;");
}

#[test]
fn finder_query_end_to_end() {
    let mut f = Finder::new("/home/u".to_string());
    let mut calls: Vec<(String, bool)> = Vec::new();
    let items = f.query("src/ ", |d: &str, r: bool| {
        calls.push((d.to_string(), r));
        Ok::<Vec<String>, String>(strings(&["b.rs", "a/", "a/c.rs"]))
    });
    assert_eq!(calls, vec![("/home/u/src/".to_string(), true)]);
    let labels: Vec<&str> = items.iter().map(|i| i.label.as_str()).collect();
    assert_eq!(labels, vec!["b.rs    (50)", "a/    (41)", "a/c.rs    (40)"]);
    assert_eq!(items[2].complete_input, "src/a/");
    assert_eq!(items[2].open_path, "/home/u/src/a/c.rs");
    assert_eq!(items[0].parent_input, " ");
    // Same directory, recursive again: served from the cache.
    let items2 = f.query("src/ b", |_: &str, _: bool| -> Result<Vec<String>, String> {
        panic!("the cached listing should be used")
    });
    assert_eq!(items2.len(), 1);
    assert_eq!(items2[0].open_path, "/home/u/src/b.rs");
}

#[test]
fn finder_walk_failure_gives_no_items() {
    let mut f = Finder::new("/home/u".to_string());
    let items = f.query("/nope/x", |_: &str, _: bool| Err::<Vec<String>, String>("no such dir".to_string()));
    assert!(items.is_empty());
}

#[test]
fn ties_use_character_order_beyond_ascii() {
    let ms = vec![("é".to_string(), 1), ("z".to_string(), 1), ("Z".to_string(), 1), ("dir/".to_string(), 0)];
    let r = rank_matches(&ms);
    assert_eq!(
        r,
        vec![("Z".to_string(), 51), ("z".to_string(), 51), ("é".to_string(), 51), ("dir/".to_string(), 41)]
    );
}

#[test]
fn finder_root_relative_query_walks_absolute_directory() {
    let mut f = Finder::new("/home/u".to_string());
    let mut calls: Vec<(String, bool)> = Vec::new();
    let items = f.query("/etc/sys", |d: &str, r: bool| {
        calls.push((d.to_string(), r));
        Ok::<Vec<String>, String>(strings(&["sysctl.conf", "hosts"]))
    });
    assert_eq!(calls, vec![("/etc/".to_string(), false)]);
    assert_eq!(items.len(), 1);
    assert_eq!(items[0].open_path, "/etc/sysctl.conf");
    assert_eq!(items[0].complete_input, "/etc/");
    assert_eq!(items[0].parent_input, "/ sys");
}

#[test]
fn find_in_children_returns_walk_error() {
    let mut f = Finder::new("/home/u".to_string());
    let r = f.find_in_children("x/", "p", false, |_: &str, _: bool| {
        Err::<Vec<String>, String>("permission denied".to_string())
    });
    assert_eq!(r.unwrap_err(), "permission denied");
}

#[test]
fn blank_pattern_keeps_every_entry_unscored() {
    let entries = strings(&["b", "a/"]);
    let r = match_entries("   ", &entries);
    assert_eq!(r, vec![("b".to_string(), 0), ("a/".to_string(), 0)]);
    assert_eq!(score_candidate("  ", "anything"), Some(0));
}
