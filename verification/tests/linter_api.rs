use squawk::lint::{Linter, LinterSettings};
use squawk::linter::{Rule, TextRange};
use squawk::syntax::{SourceFile, Stmt};
use squawk::version::Version;

#[test]
fn rule_names_read_back() {
    for rule in Rule::all() {
        if rule == Rule::UnusedIgnore {
            continue;
        }
        assert_eq!(Rule::try_from_name(rule.name()), Ok(rule));
        assert_eq!(rule.to_string(), rule.name());
    }
    assert_eq!(Rule::try_from_name("prefer-timestamptz"), Ok(Rule::PreferTimestampTz));
    assert_eq!(Rule::try_from_name("nope"), Err("Unknown violation name: nope".to_string()));
}

#[test]
fn linters_run_the_rules_they_are_given() {
    let all = Linter::with_all_rules();
    assert_eq!(all.rules.len(), Rule::all().len());
    let some = Linter::without_rules(&[Rule::BanDropTable, Rule::PreferRobustStmts]);
    assert_eq!(some.rules.len(), Rule::all().len() - 2);
    assert!(!some.rules.contains(&Rule::BanDropTable));
    let dup = Linter::from(vec![Rule::BanDropTable, Rule::BanDropTable]);
    assert_eq!(dup.rules, vec![Rule::BanDropTable]);
    assert_eq!(dup.settings, LinterSettings::default());
}

#[test]
fn a_rule_not_run_reports_nothing() {
    let sql = "drop table t; drop database d;";
    let file = SourceFile {
        stmts: vec![
            Stmt::DropTable { range: TextRange::new(0, 12), if_exists: false, table_token: Some(TextRange::new(5, 10)) },
            Stmt::DropDatabase { range: TextRange::new(14, 29) },
        ],
        names: vec![],
        column_types: vec![],
        column_assignments: vec![],
        text_range: TextRange::new(0, sql.len() as u32),
    };
    let mut linter = Linter::without_rules(&[Rule::BanDropTable]);
    let codes: Vec<Rule> = linter.lint(&file, sql).into_iter().map(|v| v.code).collect();
    assert_eq!(codes, vec![Rule::PreferRobustStmts, Rule::BanDropDatabase]);
    let mut linter = Linter::with_all_rules();
    let codes: Vec<Rule> = linter.lint(&file, sql).into_iter().map(|v| v.code).collect();
    assert_eq!(codes, vec![Rule::BanDropTable, Rule::PreferRobustStmts, Rule::BanDropDatabase]);
}

#[test]
fn versions_parse_and_order() {
    assert_eq!("15".parse::<Version>().unwrap(), Version::new(15, None, None));
    assert_eq!("15.1".parse::<Version>().unwrap(), Version::new(15, Some(1), None));
    assert_eq!("15.1.2".parse::<Version>().unwrap(), Version::new(15, Some(1), Some(2)));
    assert!("15.".parse::<Version>().is_err());
    assert!("x".parse::<Version>().is_err());
    assert!("1.2.3.4".parse::<Version>().is_err());
    assert!("4294967296".parse::<Version>().is_err());
    assert!(Version::new(11, None, None).precedes(&Version::new(11, Some(0), None)));
    assert!(Version::new(11, Some(9), None).precedes(&Version::new(12, None, None)));
    assert!(!Version::new(12, None, None).precedes(&Version::new(12, None, None)));
    assert_eq!(LinterSettings::default().pg_version, Version::new(15, Some(0), Some(0)));
}
