use athenas_pallas::strategy::{
    detect_probe_paths, detect_strategy, is_strategy_name, join_path_text, legacy_candidates,
    normalize_for_dedup, parent_trading_dir, project_roots, resolve_strategy_path,
    strategy_candidates, PathKind, PathProbe, ResolvedStrategy,
};

/// A simulated checkout: the workspace root holds `trading/simple_sma/strategy.py` and the
/// CMake strategy `trading/simple_sma_cpp`.
const ROOT: &str = "/work/athenas-pallas/..";

fn dirs() -> Vec<String> {
    vec![
        format!("{ROOT}/trading"),
        format!("{ROOT}/trading/simple_sma"),
        format!("{ROOT}/trading/simple_sma_cpp"),
    ]
}

fn files() -> Vec<String> {
    vec![
        format!("{ROOT}/trading/simple_sma/strategy.py"),
        format!("{ROOT}/trading/simple_sma_cpp/CMakeLists.txt"),
    ]
}

fn probe(path: &str) -> PathProbe {
    let d = dirs();
    let f = files();
    let (cmake, strategy_py, main_py) = detect_probe_paths(path);
    PathProbe {
        kind: if d.iter().any(|x| x == path) {
            PathKind::Dir
        } else if f.iter().any(|x| x == path) {
            PathKind::File
        } else {
            PathKind::Missing
        },
        cmake_file: f.contains(&cmake),
        strategy_py_file: f.contains(&strategy_py),
        main_py_file: f.contains(&main_py),
    }
}

fn resolve(strategy: &str, cwd: &str) -> Result<ResolvedStrategy, athenas_pallas::error::Error> {
    let roots = vec![ROOT.to_string()];
    let parent_has_trading = match parent_trading_dir(strategy) {
        Some(p) => dirs().contains(&p),
        None => false,
    };
    let candidates = strategy_candidates(strategy, Some(cwd), &roots, parent_has_trading);
    let probes: Vec<PathProbe> = candidates.iter().map(|c| probe(c)).collect();
    resolve_strategy_path(strategy, &candidates, &probes)
}

fn workspace_root() -> String {
    ROOT.to_string()
}

#[test]
fn resolves_config_normalized_strategy_name() {
    let normalized = join_path_text(&workspace_root(), "simple_sma");
    let resolved = resolve(&normalized, "/elsewhere").unwrap();
    assert!(matches!(resolved, ResolvedStrategy::Python(_)));
    assert!(resolved.path().ends_with("trading/simple_sma/strategy.py"));
}

#[test]
fn detects_direct_python_file() {
    let path = join_path_text(&workspace_root(), "trading/simple_sma/strategy.py");
    let resolved = resolve(&path, "/elsewhere").unwrap();
    assert!(matches!(resolved, ResolvedStrategy::Python(_)));
}

#[test]
fn resolves_direct_strategy_name() {
    let resolved = resolve("simple_sma", "/elsewhere").unwrap();
    assert!(matches!(resolved, ResolvedStrategy::Python(_)));
    assert!(resolved.path().ends_with("trading/simple_sma/strategy.py"));
}

#[test]
fn resolves_cmake_cpp_directory() {
    let resolved = resolve("simple_sma_cpp", "/elsewhere").unwrap();
    assert!(matches!(resolved, ResolvedStrategy::CmakeCpp(_)));
    assert!(resolved.path().ends_with("trading/simple_sma_cpp"));
    assert_eq!(resolved.kind(), "cmake-cpp");
}

#[test]
fn resolves_legacy_python_path() {
    let resolved = resolve("trading/strategies/simple_sma/strategy.py", "/elsewhere").unwrap();
    assert!(matches!(resolved, ResolvedStrategy::Python(_)));
    assert!(resolved.path().ends_with("trading/simple_sma/strategy.py"));
}

#[test]
fn resolves_legacy_cpp_path() {
    let resolved = resolve("trading/cpp/strategies/simple_sma", "/elsewhere").unwrap();
    assert!(matches!(resolved, ResolvedStrategy::CmakeCpp(_)));
    assert!(resolved.path().ends_with("trading/simple_sma_cpp"));
}

#[test]
fn invalid_strategy_errors() {
    let err = resolve("definitely_missing_strategy", "/elsewhere").unwrap_err();
    assert!(err.to_text().contains("no runnable strategy"));
}

#[test]
fn candidates_are_tried_in_order_without_repeats() {
    let roots = vec![ROOT.to_string(), "/WORK/athenas-pallas/..".to_string()];
    let c = strategy_candidates("simple_sma", Some(ROOT), &roots, false);
    assert_eq!(
        c,
        vec![
            "simple_sma".to_string(),
            format!("{ROOT}/simple_sma"),
            format!("{ROOT}/trading/simple_sma"),
        ]
    );
}

#[test]
fn path_helpers() {
    assert_eq!(join_path_text("a", "b"), "a/b");
    assert_eq!(join_path_text("a/", "b"), "a/b");
    assert_eq!(join_path_text("", "b"), "b");
    assert_eq!(join_path_text("a", "/b"), "/b");
    assert!(is_strategy_name("simple_sma"));
    assert!(!is_strategy_name("trading/simple_sma"));
    assert!(!is_strategy_name("/simple_sma"));
    assert!(!is_strategy_name("./simple_sma"));
    assert_eq!(normalize_for_dedup("C:\\Trading\\SMA"), "c:/trading/sma");
    assert_eq!(
        parent_trading_dir("/repo/strategies/sma.py"),
        Some("/repo/strategies/trading".to_string())
    );
    assert_eq!(parent_trading_dir("relative/sma.py"), None);
    assert_eq!(
        legacy_candidates("/r", "trading/cpp/strategies/x/main.cpp"),
        vec!["/r/trading/x_cpp/main.cpp".to_string()]
    );
    assert!(legacy_candidates("/r", "strategies/x").is_empty());
    assert_eq!(
        project_roots(&vec!["/a".to_string(), "/b".to_string()], &vec!["/A".to_string()]),
        vec!["/a".to_string(), "/b".to_string()]
    );
}

#[test]
fn detection_rules() {
    let dir = PathProbe { kind: PathKind::Dir, cmake_file: false, strategy_py_file: false, main_py_file: true };
    let r = detect_strategy("/s", &dir).unwrap();
    assert_eq!(r.kind(), "python");
    assert_eq!(r.path(), "/s/main.py");
    let file = PathProbe { kind: PathKind::File, cmake_file: false, strategy_py_file: false, main_py_file: false };
    assert_eq!(detect_strategy("/s/run", &file).unwrap().kind(), "binary");
    assert_eq!(detect_strategy("/s/run.py", &file).unwrap().kind(), "python");
    let empty = PathProbe { kind: PathKind::Dir, cmake_file: false, strategy_py_file: false, main_py_file: false };
    assert!(detect_strategy("/s", &empty).is_none());
}
