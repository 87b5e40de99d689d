use ignore::gitignore::GitignoreBuilder;
use notebuild::fingerprint::{fingerprint, hex16};
use notebuild::ignore_rules::mark_ignored;
use notebuild::index::{build_index, DocMeta};
use notebuild::meta::{extract_metadata, id_key_exec};
use notebuild::paths::{output_path, relative_to};
use notebuild::pipeline::{index_pass, ingest, ParsedDoc, SourceDoc};
use notebuild::resolve::{link_targets, resolve_links, resolve_target};
use notebuild::store::Store;
use notebuild::strmap::StrMap;
use notebuild::text::{chars_of, scan_rest_exec};
use notebuild::tree::{DocTree, Node, NodeKind};
use notebuild::watch::{apply_revision, process_revision, watch_step, Revision, WatchAction, WatchEvent, WatchState};

fn s(x: &str) -> String {
    x.to_string()
}

fn node(kind: NodeKind, children: Vec<usize>) -> Node {
    Node { kind, children }
}

fn link(path: &str) -> NodeKind {
    NodeKind::Link { path: s(path), desc: Some(s("see")) }
}

/// A document whose first section holds an `:ID:` drawer for `id` (if any)
/// and a paragraph with the given links.
fn doc(id: Option<&str>, links: &[&str]) -> DocTree {
    let mut nodes = vec![node(NodeKind::Other, vec![1]), node(NodeKind::Section, vec![])];
    if let Some(id) = id {
        let drawer = nodes.len();
        nodes.push(node(NodeKind::Drawer, vec![drawer + 1]));
        nodes.push(node(NodeKind::Other, vec![drawer + 2]));
        nodes.push(node(NodeKind::Text { value: format!(":ID:       {}", id) }, vec![]));
        nodes[1].children.push(drawer);
    }
    let para = nodes.len();
    nodes.push(node(NodeKind::Other, vec![]));
    nodes[1].children.push(para);
    for l in links {
        let i = nodes.len();
        nodes.push(node(link(l), vec![]));
        nodes[para].children.push(i);
    }
    DocTree { nodes, section: Some(1) }
}

fn src(path: &str, contents: &str, ignored: bool) -> SourceDoc {
    SourceDoc { path: s(path), contents: s(contents), ignored }
}

fn rows(store: &Store) -> Vec<(String, String, String)> {
    let mut v: Vec<(String, String, String)> = store
        .scan()
        .iter()
        .map(|r| (r.path.clone(), r.fingerprint.clone(), r.contents.clone()))
        .collect();
    v.sort();
    v
}

#[test]
fn hex16_pads_and_uses_lowercase() {
    assert_eq!(hex16(0), "0000000000000000");
    assert_eq!(hex16(0xdead_beef), "00000000deadbeef");
    assert_eq!(hex16(u64::MAX), "ffffffffffffffff");
}

#[test]
fn fingerprint_is_seahash_in_hex() {
    let f = fingerprint("hello world");
    assert_eq!(f, format!("{:016x}", seahash::hash(b"hello world")));
    assert_eq!(f.len(), 16);
}

#[test]
fn fingerprint_is_deterministic() {
    let a = s("* heading\nsome text\n");
    let b = a.clone();
    assert_eq!(fingerprint(&a), fingerprint(&b));
    assert_ne!(fingerprint("one"), fingerprint("two"));
}

#[test]
fn text_helpers() {
    assert_eq!(chars_of("héllo"), vec!['h', 'é', 'l', 'l', 'o']);
    let p = vec!['i', 'd', ':'];
    assert_eq!(scan_rest_exec(&p, "id:abc"), Some(s("abc")));
    assert_eq!(scan_rest_exec(&p, "id:"), None);
    assert_eq!(scan_rest_exec(&p, "id:a\nb"), None);
    assert_eq!(scan_rest_exec(&p, "file:abc"), None);
}

#[test]
fn strmap_insert_replaces() {
    let mut m = StrMap::new();
    m.insert(s("k"), s("1"));
    m.insert(s("j"), s("2"));
    m.insert(s("k"), s("3"));
    assert_eq!(m.len(), 2);
    assert_eq!(m.get(&s("k")), Some(s("3")));
    assert_eq!(m.get(&s("j")), Some(s("2")));
    assert_eq!(m.get(&s("x")), None);
    assert!(m.contains(&s("j")));
    let c = m.copy();
    assert_eq!(c.get(&s("k")), Some(s("3")));
    assert_eq!(c.entries().len(), 2);
}

#[test]
fn store_upsert_keys_on_path() {
    let mut st = Store::new();
    st.upsert(s("a.org"), s("f1"), s("one"));
    st.upsert(s("b.org"), s("f2"), s("two"));
    st.upsert(s("a.org"), s("f3"), s("three"));
    assert_eq!(st.scan().len(), 2);
    let a = st.get(&s("a.org")).unwrap();
    assert_eq!(a.fingerprint, "f3");
    assert_eq!(a.contents, "three");
    assert!(st.contains_fingerprint(&s("f2")));
    assert!(!st.contains_fingerprint(&s("f1")));
    assert!(st.get(&s("c.org")).is_none());
}

#[test]
fn store_set_meta() {
    let mut st = Store::new();
    st.upsert(s("a.org"), s("f1"), s("one"));
    let mut m = StrMap::new();
    m.insert(s("ID"), s("X"));
    assert!(st.set_meta(&s("a.org"), m.copy()));
    assert!(!st.set_meta(&s("b.org"), m));
    assert_eq!(st.get(&s("a.org")).unwrap().meta.get(&s("ID")), Some(s("X")));
    st.upsert(s("a.org"), s("f2"), s("two"));
    assert_eq!(st.get(&s("a.org")).unwrap().meta.get(&s("ID")), Some(s("X")));
}

#[test]
fn metadata_reads_drawer_and_keywords() {
    let mut t = doc(Some("node-1"), &[]);
    let k = t.nodes.len();
    t.nodes.push(node(NodeKind::Keyword { key: s("title"), value: s("My Note") }, vec![]));
    t.nodes[1].children.push(k);
    assert!(t.is_well_formed());
    let m = extract_metadata(&t);
    assert_eq!(m.get(&s("ID")), Some(s("node-1")));
    assert_eq!(m.get(&s("TITLE")), Some(s("My Note")));
    assert_eq!(m.get(&s("title")), None);
    assert_eq!(m.len(), 2);
    assert_eq!(id_key_exec(), "ID");
}

#[test]
fn metadata_ignores_malformed_id_lines_and_headings() {
    let mut t = doc(None, &[]);
    let d = t.nodes.len();
    t.nodes.push(node(NodeKind::Drawer, vec![d + 1]));
    t.nodes.push(node(NodeKind::Other, vec![d + 2, d + 3]));
    t.nodes.push(node(NodeKind::Text { value: s(":ID: short") }, vec![]));
    t.nodes.push(node(NodeKind::Text { value: s(":ID:       ") }, vec![]));
    t.nodes[1].children.push(d);
    assert!(extract_metadata(&t).get(&s("ID")).is_none());
    let none = DocTree { nodes: vec![node(NodeKind::Other, vec![])], section: None };
    assert_eq!(extract_metadata(&none).len(), 0);
}

#[test]
fn well_formedness_check() {
    let bad = DocTree { nodes: vec![node(NodeKind::Section, vec![3])], section: Some(0) };
    assert!(!bad.is_well_formed());
    let bad2 = DocTree { nodes: vec![], section: Some(0) };
    assert!(!bad2.is_well_formed());
    assert!(doc(Some("x"), &["id:y"]).is_well_formed());
}

#[test]
fn index_last_writer_wins() {
    let mut m1 = StrMap::new();
    m1.insert(s("ID"), s("X"));
    let mut m2 = StrMap::new();
    m2.insert(s("ID"), s("X"));
    let m3 = StrMap::new();
    let ds = vec![
        DocMeta { path: s("a.org"), meta: m1 },
        DocMeta { path: s("b.org"), meta: m2 },
        DocMeta { path: s("c.org"), meta: m3 },
    ];
    let idx = build_index(&ds);
    assert_eq!(idx.len(), 1);
    assert_eq!(idx.get(&s("X")), Some(s("b.org")));
}

#[test]
fn resolve_target_cases() {
    let mut idx = StrMap::new();
    idx.insert(s("X"), s("a.org"));
    assert_eq!(resolve_target("id:X", &idx), "file:a.org");
    assert_eq!(resolve_target("id:Y", &idx), "id:Y");
    assert_eq!(resolve_target("https://x", &idx), "https://x");
    assert_eq!(resolve_target("id:", &idx), "id:");
}

#[test]
fn resolve_links_rewrites_only_known_ids() {
    let mut idx = StrMap::new();
    idx.insert(s("X"), s("dir/a.org"));
    let mut t = doc(None, &["id:X", "id:Z", "file:other.org"]);
    let before = t.nodes.len();
    resolve_links(&mut t, &idx);
    assert_eq!(t.nodes.len(), before);
    assert_eq!(link_targets(&t), vec![s("file:dir/a.org"), s("id:Z"), s("file:other.org")]);
    match &t.nodes[before - 3].kind {
        NodeKind::Link { desc, .. } => assert_eq!(desc.as_deref(), Some("see")),
        _ => panic!("not a link"),
    }
}

#[test]
fn output_paths_replace_extension() {
    assert_eq!(output_path("a.org"), "a.html");
    assert_eq!(output_path("dir/sub/b.org"), "dir/sub/b.html");
    assert_eq!(output_path("noext"), "noext.html");
    assert_eq!(output_path("dir.d/file"), "dir.d/file.html");
    assert_eq!(output_path(".hidden"), ".hidden.html");
    assert_eq!(output_path("x.tar.gz"), "x.tar.html");
}

#[test]
fn relative_paths() {
    assert_eq!(relative_to("notes", "notes/a.org"), Some(s("a.org")));
    assert_eq!(relative_to("/home/u/notes", "/home/u/notes/d/a.org"), Some(s("d/a.org")));
    assert_eq!(relative_to("notes", "other/a.org"), None);
    assert_eq!(relative_to("notes", "notes/"), None);
    assert_eq!(relative_to("notes", "notesx/a.org"), None);
}

#[test]
fn ingest_skips_ignored_paths() {
    let mut st = Store::new();
    let docs = vec![src("a.org", "A", false), src("tmp/x.org", "X", true), src("b.org", "B", false)];
    ingest(&mut st, &docs);
    assert!(st.get(&s("tmp/x.org")).is_none());
    assert_eq!(st.scan().len(), 2);
    assert_eq!(st.get(&s("a.org")).unwrap().fingerprint, fingerprint("A"));
}

#[test]
fn full_build_twice_is_idempotent() {
    let mut st = Store::new();
    let docs = vec![src("a.org", "A", false), src("b.org", "B", false), src("a.org", "A2", false)];
    ingest(&mut st, &docs);
    let first = rows(&st);
    ingest(&mut st, &docs);
    assert_eq!(rows(&st), first);
    assert_eq!(first.len(), 2);
    assert_eq!(st.get(&s("a.org")).unwrap().contents, "A2");
}

#[test]
fn revision_updates_only_its_row() {
    let mut st = Store::new();
    ingest(&mut st, &vec![src("a.org", "old", false), src("b.org", "B", false)]);
    let f1 = st.get(&s("a.org")).unwrap().fingerprint.clone();
    let b_before = st.get(&s("b.org")).unwrap().fingerprint.clone();
    assert_eq!(apply_revision(&mut st, s("a.org"), s("old"), false), Revision::Unchanged);
    assert_eq!(apply_revision(&mut st, s("a.org"), s("new"), false), Revision::Updated);
    let f2 = st.get(&s("a.org")).unwrap().fingerprint.clone();
    assert_ne!(f1, f2);
    assert_eq!(f2, fingerprint("new"));
    assert_eq!(st.get(&s("a.org")).unwrap().contents, "new");
    assert_eq!(st.get(&s("b.org")).unwrap().fingerprint, b_before);
    assert_eq!(st.scan().len(), 2);
    assert_eq!(apply_revision(&mut st, s("a.org"), s("newer"), true), Revision::Ignored);
    assert_eq!(st.get(&s("a.org")).unwrap().contents, "new");
}

#[test]
fn process_revision_honours_root_and_ignore_rules() {
    let mut b = GitignoreBuilder::new("notes");
    b.add_line(None, "*.tmp").unwrap();
    let rules = b.build().unwrap();
    let mut st = Store::new();
    assert_eq!(process_revision(&mut st, &rules, "notes", "notes/x.tmp", s("t")), Revision::Ignored);
    assert_eq!(process_revision(&mut st, &rules, "notes", "elsewhere/a.org", s("t")), Revision::OutsideCorpus);
    assert_eq!(process_revision(&mut st, &rules, "notes", "notes/a.org", s("t")), Revision::Updated);
    assert_eq!(process_revision(&mut st, &rules, "notes", "notes/a.org", s("t")), Revision::Unchanged);
    assert_eq!(st.scan().len(), 1);
    assert!(st.get(&s("a.org")).is_some());
}

#[test]
fn watcher_transitions() {
    let (st, act) = watch_step(WatchState::Idle, WatchEvent::Changed { path: s("a") });
    assert!(matches!(&st, WatchState::Debouncing { path } if path == "a"));
    assert!(matches!(act, WatchAction::Nothing));
    let (st, act) = watch_step(st, WatchEvent::Changed { path: s("a") });
    assert!(matches!(&st, WatchState::Debouncing { path } if path == "a"));
    assert!(matches!(act, WatchAction::Nothing));
    let (st, act) = watch_step(st, WatchEvent::Changed { path: s("b") });
    assert!(matches!(&st, WatchState::Debouncing { path } if path == "b"));
    assert!(matches!(&act, WatchAction::Process { path } if path == "a"));
    let (st, act) = watch_step(st, WatchEvent::Quiet);
    assert!(matches!(&st, WatchState::Processing { path } if path == "b"));
    assert!(matches!(&act, WatchAction::Process { path } if path == "b"));
    let (st, act) = watch_step(st, WatchEvent::Done);
    assert!(matches!(st, WatchState::Idle));
    assert!(matches!(act, WatchAction::Nothing));
    let (st, act) = watch_step(st, WatchEvent::Quiet);
    assert!(matches!(st, WatchState::Idle));
    assert!(matches!(act, WatchAction::Nothing));
}

#[test]
fn end_to_end_three_documents() {
    let trees = vec![(s("a.org"), doc(Some("X"), &[])), (s("b.org"), doc(None, &["id:X"])), (s("c.org"), doc(None, &["id:Y"]))];
    let sources = vec![src("a.org", "a content", false), src("b.org", "b content", false), src("c.org", "c content", false)];
    let mut st = Store::new();
    ingest(&mut st, &sources);
    assert_eq!(st.scan().len(), 3);
    let parsed: Vec<ParsedDoc> = trees.into_iter().map(|(path, tree)| ParsedDoc { path, tree }).collect();
    let idx = index_pass(&mut st, &parsed);
    assert_eq!(idx.len(), 1);
    assert_eq!(idx.get(&s("X")), Some(s("a.org")));
    assert_eq!(st.get(&s("a.org")).unwrap().meta.get(&s("ID")), Some(s("X")));
    let mut outputs = Vec::new();
    for p in parsed {
        let mut tree = p.tree;
        resolve_links(&mut tree, &idx);
        outputs.push((output_path(&p.path), link_targets(&tree)));
    }
    assert_eq!(outputs[0], (s("a.html"), vec![]));
    assert_eq!(outputs[1], (s("b.html"), vec![s("file:a.org")]));
    assert_eq!(outputs[2], (s("c.html"), vec![s("id:Y")]));
    assert_eq!(rows(&st).len(), 3);
}

#[test]
fn fingerprint_depends_on_content_not_path() {
    let mut st = Store::new();
    ingest(&mut st, &vec![src("one/a.org", "same bytes", false), src("two/b.org", "same bytes", false)]);
    let a = st.get(&s("one/a.org")).unwrap().fingerprint.clone();
    let b = st.get(&s("two/b.org")).unwrap().fingerprint.clone();
    assert_eq!(a, b);
    assert!(st.contains_fingerprint(&fingerprint("same bytes")));
}

#[test]
fn ignore_rules_mark_scanned_documents() {
    let mut b = GitignoreBuilder::new("notes");
    b.add_line(None, "drafts/").unwrap();
    b.add_line(None, "*.tmp").unwrap();
    let rules = b.build().unwrap();
    let mut docs = vec![src("a.org", "A", false), src("x.tmp", "X", false), src("b.org", "B", true)];
    mark_ignored(&rules, &mut docs);
    let flags: Vec<bool> = docs.iter().map(|d| d.ignored).collect();
    assert_eq!(flags, vec![false, true, true]);
    let mut st = Store::new();
    ingest(&mut st, &docs);
    assert_eq!(st.scan().len(), 1);
    assert!(st.get(&s("x.tmp")).is_none());
}
