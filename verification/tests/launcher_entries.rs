//! Desktop entries: where they are, what they say, how they are started and
//! ranked.

use sleepy_session::error::ErrorKind;
use sleepy_session::launcher::entry::parse_entry;
use sleepy_session::launcher::exec::{expand_exec, tokenize, validate_resources, ExecFields, LaunchResources};
use sleepy_session::launcher::index::{DesktopEntryIndex, ScannedFile};
use sleepy_session::launcher::metrics::{
    fuzzy_score, LauncherMetrics, MetricsDocument, StoredMetrics, Usage, UsageEntry,
};
use sleepy_session::launcher::walk::{
    current_desktops, xdg_roots, DesktopWalk, FoundKind, MAX_DEPTH, MAX_DIRECTORIES, MAX_ENTRIES,
};
use sleepy_session::paths::{
    clean_absolute, entry_of, join_path, path_components, sort_paths, split_paths,
};

const ENTRY: &str = "[Desktop Entry]\nType=Application\nName=Editor\nIcon=edit\nExec=editor --new %F\nActions=window;\n\n[Desktop Action window]\nName=New Window\nExec=editor --window\n";

fn scanned(relative: &str, contents: &str) -> ScannedFile {
    ScannedFile {
        path: format!("/usr/share/applications/{relative}"),
        relative: relative.to_string(),
        contents: Some(contents.to_string()),
    }
}

fn words(tokens: Vec<Vec<char>>) -> Vec<String> {
    tokens.into_iter().map(|token| token.into_iter().collect()).collect()
}

#[test]
fn an_entry_is_read_with_its_actions() {
    let entry = parse_entry("/a/editor.desktop", "editor.desktop".into(), ENTRY, &vec![], &|_: &str| true)
        .unwrap();
    assert_eq!(entry.name, "Editor");
    assert_eq!(entry.icon.as_deref(), Some("edit"));
    assert_eq!(entry.actions.len(), 1);
    assert_eq!(entry.actions[0].name, "New Window");
    let none = |text: &str| {
        parse_entry("/a", "a".into(), text, &vec!["niri".to_string()], &|_: &str| false).is_none()
    };
    assert!(none("[Desktop Entry]\nType=Link\nName=x\nExec=x\n"));
    assert!(none("[Desktop Entry]\nType=Application\nName=x\nExec=x\nNoDisplay=true\n"));
    assert!(none("[Desktop Entry]\nType=Application\nName=x\nExec=x\nHidden=true\n"));
    assert!(none("[Desktop Entry]\nType=Application\nName=x\nExec=x\nTryExec=missing\n"));
    assert!(none("[Desktop Entry]\nType=Application\nName=x\nExec=x\nOnlyShowIn=GNOME;\n"));
    assert!(none("[Desktop Entry]\nno assignment\n"));
}

#[test]
fn command_lines_are_split_and_expanded() {
    assert_eq!(words(tokenize("a \"b c\" d").unwrap()), ["a", "b c", "d"]);
    assert_eq!(words(tokenize("a \"b\\\"c\"").unwrap()), ["a", "b\"c"]);
    assert!(tokenize("a \"b").is_err());
    let fields = ExecFields { name: "Name", icon: Some("icon"), path: "/p.desktop" };
    let resources = LaunchResources {
        files: vec!["/x".into(), "/y".into()],
        urls: vec!["http://z".into()],
    };
    let expand = |line: &str| expand_exec(line, &fields, &resources);
    assert_eq!(expand("run %F").unwrap(), ["run", "/x", "/y"]);
    assert_eq!(expand("run %f").unwrap(), ["run", "/x"]);
    assert_eq!(expand("run %c %%").unwrap(), ["run", "Name", "%"]);
    assert_eq!(expand("run %i").unwrap(), ["run", "--icon", "icon"]);
    assert_eq!(expand("run %k").unwrap(), ["run", "/p.desktop"]);
    assert!(expand("").is_err());
    assert!(expand("run %z").is_err());
}

#[test]
fn resources_of_a_launch_are_bounded() {
    let with = |files: Vec<String>| LaunchResources { files, urls: vec![] };
    assert!(validate_resources(&LaunchResources::none()).is_ok());
    assert!(validate_resources(&with(vec!["x".into(); 256])).is_ok());
    let many = validate_resources(&with(vec!["x".into(); 257])).unwrap_err();
    assert_eq!(many.message, "too many launch resources");
    for odd in ["".to_string(), "a\0".to_string(), "x".repeat(16 * 1024 + 1)] {
        assert_eq!(
            validate_resources(&with(vec![odd])).unwrap_err().message,
            "launch resource is invalid or oversized"
        );
    }
    assert_eq!(
        validate_resources(&with(vec!["x".repeat(16 * 1024); 65])).unwrap_err().message,
        "launch resources exceed aggregate limit"
    );
}

#[test]
fn the_first_file_with_an_identifier_counts() {
    let files = vec![
        scanned("sub/editor.desktop", ENTRY),
        scanned("sub-editor.desktop", &ENTRY.replace("Editor", "Other")),
        scanned("broken.desktop", "nonsense"),
    ];
    let index = DesktopEntryIndex::scan(&files, &vec![], |_: &str| true).ok().unwrap();
    assert_eq!(index.entries().len(), 1);
    assert_eq!(index.get("sub-editor.desktop").unwrap().name, "Editor");
    assert!(index.get("broken.desktop").is_none());
    let none = LaunchResources::none();
    assert_eq!(
        index.launch_argv("sub-editor.desktop", None, &none).unwrap(),
        ["editor", "--new"]
    );
    assert_eq!(
        index.launch_argv("sub-editor.desktop", Some("window"), &none).unwrap(),
        ["editor", "--window"]
    );
    assert_eq!(
        index.launch_argv("none", None, &none).unwrap_err().message,
        "Desktop Entry is not indexed"
    );
    assert_eq!(
        index.launch_argv("sub-editor.desktop", Some("x"), &none).unwrap_err().message,
        "Desktop Action is not indexed"
    );
}

#[test]
fn launches_are_counted_and_rank_candidates() {
    let mut metrics = LauncherMetrics::open(StoredMetrics::Missing).ok().unwrap();
    metrics.record_launch("b.desktop", 10).unwrap();
    metrics.record_launch("b.desktop", 20).unwrap();
    assert_eq!(metrics.entries().len(), 1);
    assert_eq!(metrics.entries()[0].usage, Usage { count: 2, last_used: 20 });
    let candidates: Vec<String> =
        ["a.desktop", "b.desktop", "c.desktop"].iter().map(|name| name.to_string()).collect();
    assert_eq!(metrics.rank("", &candidates)[0], "b.desktop");
    // Upper and lower case are not told apart.
    assert_eq!(metrics.rank("C.DESK", &candidates), ["c.desktop"]);
    let chars = |text: &str| text.chars().collect::<Vec<char>>();
    assert!(fuzzy_score(&chars("zz"), &chars("abc")).is_none());
    assert!(fuzzy_score(&chars("ac"), &chars("abc")).is_some());
    let stored = |version| StoredMetrics::Read {
        size: 10,
        document: MetricsDocument {
            schema_version: version,
            entries: vec![UsageEntry {
                desktop_id: "x".into(),
                usage: Usage { count: 1, last_used: 1 },
            }],
        },
    };
    assert!(LauncherMetrics::open(stored(1)).is_ok());
    assert!(LauncherMetrics::open(stored(2)).is_err());
}

#[test]
fn roots_come_from_the_environment() {
    let roots = xdg_roots(Some(b"/home/a"), None, None).unwrap();
    assert_eq!(
        roots,
        [
            b"/home/a/.local/share/applications".to_vec(),
            b"/usr/local/share/applications".to_vec(),
            b"/usr/share/applications".to_vec(),
        ]
    );
    let roots = xdg_roots(None, Some(b"/data/"), Some(b"/one:/two")).unwrap();
    assert_eq!(
        roots,
        [
            b"/data/applications".to_vec(),
            b"/one/applications".to_vec(),
            b"/two/applications".to_vec(),
        ]
    );
    assert_eq!(
        xdg_roots(None, None, None).unwrap_err().message,
        "XDG data home is unavailable"
    );
    let relative = xdg_roots(None, Some(b"/data"), Some(b"/one:two")).unwrap_err();
    assert_eq!(relative.kind, ErrorKind::InvalidInput);
    assert!(xdg_roots(None, Some(b"/data"), Some(b"")).is_err());
    assert_eq!(current_desktops("niri::GNOME"), ["niri", "GNOME"]);
    assert!(current_desktops("").is_empty());
}

#[test]
fn directories_are_walked_within_limits() {
    let mut walk = DesktopWalk::begin(b"/a".to_vec(), "/a".into());
    assert_eq!(walk.enter().unwrap().unwrap(), b"/a");
    walk.found(b"/a/x.desktop".to_vec(), b"x.desktop", FoundKind::File).unwrap();
    walk.found(b"/a/.desktop".to_vec(), b".desktop", FoundKind::File).unwrap();
    walk.found(b"/a/y.txt".to_vec(), b"y.txt", FoundKind::File).unwrap();
    walk.found(b"/a/l.desktop".to_vec(), b"l.desktop", FoundKind::Link).unwrap();
    walk.found(b"/a/sub".to_vec(), b"sub", FoundKind::Directory).unwrap();
    assert_eq!(walk.enter().unwrap().unwrap(), b"/a/sub");
    assert!(walk.enter().unwrap().is_none());
    assert_eq!(walk.finish(), [b"/a/x.desktop".to_vec()]);

    let mut deep = DesktopWalk::begin(b"/a".to_vec(), "/a".into());
    for _ in 0..=MAX_DEPTH {
        deep.enter().unwrap().unwrap();
        deep.found(b"/d".to_vec(), b"d", FoundKind::Directory).unwrap();
    }
    assert_eq!(
        deep.enter().unwrap_err().message,
        "Desktop Entry traversal exceeded limits below /a"
    );
    let mut wide = DesktopWalk::begin(b"/a".to_vec(), "/a".into());
    wide.enter().unwrap();
    for _ in 0..MAX_DIRECTORIES {
        wide.found(b"/d".to_vec(), b"d", FoundKind::Directory).unwrap();
    }
    for _ in 1..MAX_DIRECTORIES {
        wide.enter().unwrap().unwrap();
    }
    assert_eq!(wide.enter().unwrap_err().kind, ErrorKind::InvalidData);
    let mut full = DesktopWalk::begin(b"/a".to_vec(), "/a".into());
    full.enter().unwrap();
    for _ in 0..MAX_ENTRIES {
        full.found(b"/f".to_vec(), b"f.desktop", FoundKind::File).unwrap();
    }
    assert_eq!(
        full.found(b"/f".to_vec(), b"f.desktop", FoundKind::File).unwrap_err().message,
        "too many entries below /a"
    );
}

#[test]
fn paths_are_compared_by_their_names() {
    assert_eq!(
        path_components(b"/a//b/./c/"),
        [b"a".to_vec(), b"b".to_vec(), b"c".to_vec()]
    );
    assert!(clean_absolute(b"/a/b"));
    assert!(!clean_absolute(b"a/b"));
    assert!(!clean_absolute(b"/a/../b"));
    assert!(!clean_absolute(b"/a\0"));
    assert!(entry_of(b"/a/b/c", b"/a/b/"));
    assert!(!entry_of(b"/a/b/c/d", b"/a/b"));
    assert!(!entry_of(b"/", b"/"));
    assert_eq!(join_path(b"/a", b"b"), b"/a/b");
    assert_eq!(join_path(b"/a/", b"b"), b"/a/b");
    assert_eq!(split_paths(b"a::b"), [b"a".to_vec(), b"".to_vec(), b"b".to_vec()]);
}

#[test]
fn paths_are_ordered_name_by_name() {
    let paths = ["/a/b-c", "/a/b/c", "/a", "/a/b", "/B/z", "/a/b/a"];
    let sorted = sort_paths(paths.iter().map(|path| path.as_bytes().to_vec()).collect());
    let expected = ["/B/z", "/a", "/a/b", "/a/b/a", "/a/b/c", "/a/b-c"];
    assert_eq!(sorted, expected.map(|path| path.as_bytes().to_vec()));
}
