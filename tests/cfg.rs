use ratmole::cfg::{dev_cfg_expr, dev_platform_name, Cfg, CfgExpr};

#[test]
fn dev_configuration_satisfies_its_parts() {
    let dev = dev_cfg_expr();
    let linux = CfgExpr::Value(Cfg::key_value("target_os", "linux"));
    let windows = CfgExpr::Value(Cfg::key_value("target_os", "windows"));
    assert!(!dev.is_satisfied_by(&linux));
    assert!(!dev.is_satisfied_by(&windows));
    assert!(dev.is_satisfied_by(&CfgExpr::Not(Box::new(windows))));
    assert_eq!(dev_platform_name(), "x86_64-unknown-linux-gnu");
}

#[test]
fn predicates_hold_in_a_configuration() {
    let unix = Cfg::value("unix");
    let expr = CfgExpr::Any(vec![
        CfgExpr::Value(Cfg::value("windows")),
        CfgExpr::All(vec![CfgExpr::Value(Cfg::value("unix")), CfgExpr::Not(Box::new(CfgExpr::Value(Cfg::value("wasm"))))]),
    ]);
    assert!(expr.is_satisfied_by_slice(&[unix]));
    assert!(!expr.is_satisfied_by_slice(&[Cfg::value("wasm"), Cfg::value("unix")]));
    assert!(!expr.is_satisfied_by_slice(&[]));
    let single = CfgExpr::Value(Cfg::value("unix"));
    assert!(single.is_satisfied_by(&CfgExpr::Value(Cfg::value("unix"))));
    assert!(single.is_satisfied_by(&CfgExpr::Any(vec![CfgExpr::Value(Cfg::value("x")), CfgExpr::Value(Cfg::value("unix"))])));
    assert!(!single.is_satisfied_by(&CfgExpr::All(vec![CfgExpr::Value(Cfg::value("x")), CfgExpr::Value(Cfg::value("unix"))])));
}
