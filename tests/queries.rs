use find_unsafe_rs::{
    Error, FileFailure, FindUnsafeRs, IoErrorKind, LineColumn, NodeKind, SimpleSpan, SyntaxNode,
    UnsafeLocationKind,
};

fn lc(line: usize, column: usize) -> LineColumn {
    LineColumn { line, column }
}

fn span(a: (usize, usize), b: (usize, usize)) -> SimpleSpan {
    SimpleSpan { start: lc(a.0, a.1), end: lc(b.0, b.1) }
}

fn node(kind: NodeKind, unsafety: bool, s: SimpleSpan, name: &str, children: Vec<SyntaxNode>) -> SyntaxNode {
    SyntaxNode { kind, unsafety, span: s, name: name.to_string(), children }
}

/// The tree of the fixture `test/unsafe-03.rs`: an unsafe trait on lines 3-5,
/// an unsafe impl on lines 9-13, an unsafe fn on lines 15-19 (its attributes
/// included) and, inside the safe `main` of lines 21-27, an unsafe block on
/// line 25, columns 12 to 29.
fn unsafe_03() -> SyntaxNode {
    let bar_decl = node(NodeKind::Function, false, span((4, 4), (4, 18)), "bar", vec![]);
    let tr = node(NodeKind::Trait, true, span((3, 0), (5, 1)), "Bar", vec![bar_decl]);
    let bar_def = node(NodeKind::Function, false, span((10, 4), (12, 5)), "bar", vec![]);
    let im = node(NodeKind::Impl, true, span((9, 0), (13, 1)), "", vec![bar_def]);
    let foo = node(NodeKind::Function, true, span((15, 0), (19, 1)), "foo", vec![]);
    let block = node(NodeKind::UnsafeBlock, true, span((25, 12), (25, 29)), "", vec![]);
    let main = node(NodeKind::Function, false, span((21, 0), (27, 1)), "main", vec![block]);
    node(NodeKind::Other, false, span((1, 0), (27, 1)), "", vec![tr, im, foo, main])
}

/// An unsafe fn `name` on lines 6-9 holding an unsafe block on lines 7-8.
fn nested() -> SyntaxNode {
    let block = node(NodeKind::UnsafeBlock, true, span((7, 4), (8, 5)), "", vec![]);
    let f = node(NodeKind::Function, true, span((6, 0), (9, 1)), "name", vec![block]);
    node(NodeKind::Other, false, span((1, 0), (9, 1)), "", vec![f])
}

fn not_found() -> Error {
    Error::FileError(FileFailure { kind: IoErrorKind::NotFound, os_code: Some(2) })
}

#[test]
fn file_unsafe_03() {
    let mut f = FindUnsafeRs::new();
    let path = "test/unsafe-03.rs";
    let mut q = |line: usize, column: usize| f.is_any_unsafe_location(path, lc(line, column), || Ok(unsafe_03())).unwrap();
    assert!(q(3, 14));
    assert!(q(4, 8));
    assert!(q(9, 13));
    assert!(q(10, 8));
    assert!(q(11, 9));
    assert!(q(17, 11));
    assert!(q(18, 5));
    assert!(q(25, 22));
    assert!(!q(23, 13));
    assert!(!q(26, 12));
}

#[test]
fn analyze_files() {
    let mut f = FindUnsafeRs::new();
    assert!(f.analyze_file("test/unsafe-03.rs", Ok(unsafe_03())).is_ok());
    assert!(f.already_analyzed("test/unsafe-03.rs"));
    match f.analyze_file("test/does-not-exist.rs", Err(not_found())) {
        Ok(_) => panic!("found non-existing file"),
        Err(Error::FileError(e)) => match e.kind {
            IoErrorKind::NotFound => {}
            _ => panic!("returned wrong error kind"),
        },
        Err(_) => panic!("returned wrong error variant"),
    }
    assert!(!f.already_analyzed("test/does-not-exist.rs"));
}

#[test]
fn nested_block_in_unsafe_fn_reports_both() {
    let mut f = FindUnsafeRs::new();
    let kinds = f.check_unsafe_location("nested.rs", lc(7, 5), || Ok(nested())).unwrap();
    assert_eq!(kinds, vec![UnsafeLocationKind::Block, UnsafeLocationKind::Function("name".to_string())]);
    let kinds = f.check_unsafe_location("nested.rs", lc(5, 1), || Ok(nested())).unwrap();
    assert!(kinds.is_empty());
}

#[test]
fn span_endpoints_are_inclusive() {
    let mut f = FindUnsafeRs::new();
    let path = "nested.rs";
    f.analyze_file(path, Ok(nested())).unwrap();
    let at = |line: usize, column: usize| f.locations_at(path, lc(line, column)).unwrap();
    assert_eq!(at(7, 4), vec![UnsafeLocationKind::Block, UnsafeLocationKind::Function("name".to_string())]);
    assert_eq!(at(8, 5), vec![UnsafeLocationKind::Block, UnsafeLocationKind::Function("name".to_string())]);
    assert_eq!(at(7, 3), vec![UnsafeLocationKind::Function("name".to_string())]);
    assert_eq!(at(8, 6), vec![UnsafeLocationKind::Function("name".to_string())]);
    assert_eq!(at(6, 0), vec![UnsafeLocationKind::Function("name".to_string())]);
    assert_eq!(at(9, 2), vec![]);
}

#[test]
fn point_span_holds_only_its_point() {
    let s = span((4, 7), (4, 7));
    assert!(s.contains(lc(4, 7)));
    assert!(!s.contains(lc(4, 6)));
    assert!(!s.contains(lc(4, 8)));
    assert!(!s.contains(lc(3, 7)));
}

#[test]
fn multi_line_span_compares_lines_first() {
    let s = span((3, 10), (5, 2));
    assert!(s.contains(lc(4, 0)));
    assert!(s.contains(lc(4, 99)));
    assert!(s.contains(lc(3, 50)));
    assert!(!s.contains(lc(3, 9)));
    assert!(!s.contains(lc(5, 3)));
    assert!(!s.contains(lc(2, 50)));
}

#[test]
fn reanalysis_replaces_the_entry() {
    let mut f = FindUnsafeRs::new();
    let path = "a.rs";
    f.analyze_file(path, Ok(nested())).unwrap();
    let first = f.locations_at(path, lc(7, 5)).unwrap();
    f.analyze_file(path, Ok(nested())).unwrap();
    assert_eq!(f.locations_at(path, lc(7, 5)).unwrap(), first);
    let safe_only = node(NodeKind::Function, false, span((6, 0), (9, 1)), "name", vec![]);
    f.analyze_file(path, Ok(safe_only)).unwrap();
    assert_eq!(f.locations_at(path, lc(7, 5)).unwrap(), vec![]);
}

#[test]
fn analyzing_one_file_leaves_another_alone() {
    let mut f = FindUnsafeRs::new();
    f.analyze_file("b.rs", Ok(nested())).unwrap();
    let before = f.locations_at("b.rs", lc(7, 5)).unwrap();
    f.analyze_file("a.rs", Ok(unsafe_03())).unwrap();
    assert_eq!(f.locations_at("b.rs", lc(7, 5)).unwrap(), before);
    assert!(f.locations_at("c.rs", lc(7, 5)).is_none());
    assert!(f.analyze_file("b.rs", Err(Error::ParseError)).is_err());
    assert_eq!(f.locations_at("b.rs", lc(7, 5)).unwrap(), before);
}

#[test]
fn missing_file_is_reported_as_not_found() {
    let mut f = FindUnsafeRs::new();
    let r = f.is_any_unsafe_location("missing.rs", lc(1, 1), || Err(not_found()));
    assert_eq!(r, Err(not_found()));
    assert!(!f.already_analyzed("missing.rs"));
}

#[test]
fn parse_error_leaves_file_unanalyzed() {
    let mut f = FindUnsafeRs::new();
    let r = f.check_unsafe_location("bad.rs", lc(1, 1), || Err(Error::ParseError));
    assert_eq!(r, Err(Error::ParseError));
    assert!(!f.already_analyzed("bad.rs"));
}

#[test]
fn first_query_analyzes_once() {
    let mut f = FindUnsafeRs::new();
    let mut loads = 0;
    assert!(f.is_any_unsafe_location("n.rs", lc(7, 5), || {
        loads += 1;
        Ok(nested())
    }).unwrap());
    assert!(f.already_analyzed("n.rs"));
    assert!(!f.is_any_unsafe_location("n.rs", lc(2, 0), || {
        loads += 1;
        Ok(nested())
    }).unwrap());
    assert_eq!(loads, 1);
}

#[test]
fn traits_and_impls_are_reported_with_names() {
    let mut f = FindUnsafeRs::new();
    f.analyze_file("t.rs", Ok(unsafe_03())).unwrap();
    assert_eq!(f.locations_at("t.rs", lc(4, 8)).unwrap(), vec![UnsafeLocationKind::Trait("Bar".to_string())]);
    assert_eq!(f.locations_at("t.rs", lc(11, 9)).unwrap(), vec![UnsafeLocationKind::Impl]);
    assert_eq!(f.locations_at("t.rs", lc(18, 5)).unwrap(), vec![UnsafeLocationKind::Function("foo".to_string())]);
    assert_eq!(f.locations_at("t.rs", lc(25, 12)).unwrap(), vec![UnsafeLocationKind::Block]);
}

#[test]
fn overlapping_blocks_are_each_reported() {
    let inner = node(NodeKind::UnsafeBlock, true, span((3, 8), (3, 20)), "", vec![]);
    let outer = node(NodeKind::UnsafeBlock, true, span((2, 4), (4, 5)), "", vec![inner]);
    let root = node(NodeKind::Other, false, span((1, 0), (5, 1)), "", vec![outer]);
    let mut f = FindUnsafeRs::new();
    let kinds = f.check_unsafe_location("o.rs", lc(3, 10), || Ok(root)).unwrap();
    assert_eq!(kinds, vec![UnsafeLocationKind::Block, UnsafeLocationKind::Block]);
}
