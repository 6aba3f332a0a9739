use wat_service::config::{ConfigState, InlayHintOptions, LintLevel, Lints, ServiceConfig};
use wat_service::document::{ContentChange, LspRange, Position, SyntaxError};
use wat_service::service::LanguageService;
use wat_service::syntax::{SyntaxElement, SyntaxKind, SyntaxNode, TextRange};

fn empty_root() -> SyntaxNode {
    SyntaxNode { kind: SyntaxKind::ROOT, range: TextRange { start: 0, end: 0 }, children: vec![] }
}

fn node(kind: SyntaxKind, start: u32, end: u32, children: Vec<SyntaxElement>) -> SyntaxElement {
    SyntaxElement::Node(SyntaxNode { kind, range: TextRange { start, end }, children })
}

#[test]
fn get_opened_uris() {
    let mut service = LanguageService::default();
    assert!(service.get_opened_uris().is_empty());

    let a = "untitled://a.wat".to_string();
    service.commit(a.clone(), "".into(), empty_root(), vec![]);
    assert_eq!(service.get_opened_uris().first(), Some(&a));

    let b = "untitled://b.wat".to_string();
    service.did_open(b, "".into(), empty_root(), vec![]);
    assert_eq!(service.get_opened_uris().len(), 2);
}

#[test]
fn commit_twice_keeps_one_document() {
    let mut service = LanguageService::default();
    let a = "untitled://a.wat".to_string();
    service.commit(a.clone(), "(module)".into(), empty_root(), vec![]);
    service.commit(a.clone(), "(module $m)".into(), empty_root(), vec![]);
    assert_eq!(service.get_opened_uris(), vec![a.clone()]);
    assert_eq!(service.get_document(&a).unwrap().text, "(module $m)");
}

#[test]
fn did_close_forgets_document_and_config() {
    let mut service = LanguageService::default();
    let a = "untitled://a.wat".to_string();
    let b = "untitled://b.wat".to_string();
    service.did_open(a.clone(), "".into(), empty_root(), vec![]);
    service.did_open(b.clone(), "".into(), empty_root(), vec![]);
    let mut custom = ServiceConfig::default();
    custom.lint.unused = LintLevel::Deny;
    service.set_config(a.clone(), Some(custom));
    service.did_close(&a);
    assert_eq!(service.get_opened_uris(), vec![b.clone()]);
    assert!(service.get_document(&a).is_none());
    assert_eq!(*service.config_of(&a), ServiceConfig::default());
    service.did_close("untitled://missing.wat");
    assert_eq!(service.get_opened_uris(), vec![b]);
}

#[test]
fn config_of_override_and_inherit() {
    let mut service = LanguageService::default();
    let a = "untitled://a.wat".to_string();
    service.did_open(a.clone(), "".into(), empty_root(), vec![]);
    assert_eq!(*service.config_of(&a), ServiceConfig::default());

    let mut global = ServiceConfig::default();
    global.inlay_hint.types = false;
    service.set_global_config(global);
    assert_eq!(*service.config_of(&a), global);
    assert_eq!(*service.global_config(), global);

    let mut own = ServiceConfig::default();
    own.lint.shadow = LintLevel::Allow;
    service.set_config(a.clone(), Some(own));
    assert_eq!(*service.config_of(&a), own);

    service.set_config(a.clone(), None);
    assert_eq!(*service.config_of(&a), global);
    assert_eq!(*service.config_of("untitled://other.wat"), global);
}

#[test]
fn pulled_configs_are_not_created_on_open() {
    let mut service = LanguageService::new(true);
    assert!(service.support_pull_config());
    let a = "untitled://a.wat".to_string();
    service.did_open(a.clone(), "".into(), empty_root(), vec![]);
    assert_eq!(*service.config_of(&a), ServiceConfig::default());
}

#[test]
fn config_defaults() {
    let lints = Lints::default();
    assert_eq!(lints.unused, LintLevel::Warn);
    assert_eq!(lints.shadow, LintLevel::Warn);
    assert_eq!(lints.implicit_module, LintLevel::Allow);
    assert_eq!(lints.multi_modules, LintLevel::Deny);
    assert_eq!(lints.unreachable, LintLevel::Hint);
    assert_eq!(lints.needless_mut, LintLevel::Warn);
    assert_eq!(lints.needless_try_table, LintLevel::Warn);
    assert_eq!(lints.useless_catch, LintLevel::Warn);
    let hints = InlayHintOptions::default();
    assert!(hints.types && hints.ending && hints.index);
    let global = ServiceConfig::default();
    assert_eq!(*ConfigState::Inherit.get_or_global(&global), global);
    let mut own = global;
    own.inlay_hint.index = false;
    assert_eq!(*ConfigState::Override(own).get_or_global(&global), own);
    assert_eq!(ConfigState::from_option(None), ConfigState::Inherit);
}

fn module_tree() -> SyntaxNode {
    // "(module\n  (func $f))" : module 0..20, func 10..19
    SyntaxNode {
        kind: SyntaxKind::ROOT,
        range: TextRange { start: 0, end: 20 },
        children: vec![node(
            SyntaxKind::MODULE,
            0,
            20,
            vec![node(SyntaxKind::MODULE_FIELD_FUNC, 10, 19, vec![])],
        )],
    }
}

#[test]
fn incremental_change_is_planned_and_finished() {
    let mut service = LanguageService::default();
    let a = "untitled://a.wat".to_string();
    let old_errors = vec![
        SyntaxError { range: TextRange { start: 12, end: 13 }, message: "inside".into(), name: None },
        SyntaxError { range: TextRange { start: 5, end: 6 }, message: "before".into(), name: None },
    ];
    service.commit(a.clone(), "(module\n  (func $f))".into(), module_tree(), old_errors);
    let changes = vec![ContentChange::Partial {
        range: LspRange {
            start: Position { line: 1, character: 10 },
            end: Position { line: 1, character: 10 },
        },
        text: "oo".into(),
    }];
    let plan = service.plan_change(&a, &changes).unwrap();
    assert_eq!(plan.range, TextRange { start: 18, end: 18 });
    assert_eq!(plan.node_kind, SyntaxKind::MODULE_FIELD_FUNC);
    assert_eq!(plan.node_range, TextRange { start: 10, end: 19 });
    assert_eq!(plan.text, "(module\n  (func $foo))");
    assert_eq!(plan.source, "oo");
    assert_eq!(plan.inserted, 2);

    let fresh = vec![SyntaxError { range: TextRange { start: 0, end: 1 }, message: "fresh".into(), name: None }];
    assert!(service.finish_incremental(&a, plan, empty_root(), fresh));
    let doc = service.get_document(&a).unwrap();
    assert_eq!(doc.text, "(module\n  (func $foo))");
    let errors: Vec<(TextRange, String)> =
        doc.syntax_errors.iter().map(|e| (e.range, e.message.clone())).collect();
    assert_eq!(
        errors,
        vec![
            (TextRange { start: 5, end: 6 }, "before".to_string()),
            (TextRange { start: 10, end: 11 }, "fresh".to_string()),
        ]
    );
}

#[test]
fn unsafe_or_multiple_changes_are_not_incremental() {
    let mut service = LanguageService::default();
    let a = "untitled://a.wat".to_string();
    service.commit(a.clone(), "(module\n  (func $f))".into(), module_tree(), vec![]);
    let at = |line, character| Position { line, character };
    let paren = vec![ContentChange::Partial {
        range: LspRange { start: at(1, 10), end: at(1, 10) },
        text: "(".into(),
    }];
    assert!(service.plan_change(&a, &paren).is_none());
    let two = vec![
        ContentChange::Partial { range: LspRange { start: at(1, 10), end: at(1, 10) }, text: "o".into() },
        ContentChange::Partial { range: LspRange { start: at(1, 10), end: at(1, 10) }, text: "o".into() },
    ];
    assert!(service.plan_change(&a, &two).is_none());
    let whole = vec![ContentChange::WholeDocument { text: "(module)".into() }];
    assert!(service.plan_change(&a, &whole).is_none());
    assert!(service.plan_change("untitled://missing.wat", &paren).is_none());
}
