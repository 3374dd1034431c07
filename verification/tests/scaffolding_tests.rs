use std::collections::VecDeque;

use protohackers::scaffolding::{problem_for_name, str_eq, Context, Problem};

#[test]
fn string_equality_by_characters() {
    assert!(str_eq("", ""));
    assert!(str_eq("abc", "abc"));
    assert!(!str_eq("abc", "abd"));
    assert!(!str_eq("abc", "ab"));
    assert!(!str_eq("caf\u{e9}", "cafe"));
    assert!(str_eq("caf\u{e9}", "caf\u{e9}"));
}

#[test]
fn context_splits_the_argument_list() {
    let args: VecDeque<String> = vec![
        "server".to_string(),
        "budget_chat".to_string(),
        "extra".to_string(),
    ]
    .into();
    let ctx = Context::new(args, "127.0.0.1:0".to_string());
    assert_eq!(ctx.program_name, "server");
    assert_eq!(ctx.problem, Some("budget_chat".to_string()));
    assert_eq!(ctx.problem_arguments, VecDeque::from(vec!["extra".to_string()]));
    assert_eq!(ctx.bind_address, "127.0.0.1:0");
}

#[test]
fn context_with_program_name_only() {
    let args: VecDeque<String> = vec!["server".to_string()].into();
    let ctx = Context::new(args, "0.0.0.0:7".to_string());
    assert_eq!(ctx.program_name, "server");
    assert_eq!(ctx.problem, None);
    assert!(ctx.problem_arguments.is_empty());
}

#[test]
fn problem_names_resolve() {
    assert_eq!(problem_for_name("smoke_test"), Some(Problem::SmokeTest));
    assert_eq!(problem_for_name("prime_time"), Some(Problem::PrimeTime));
    assert_eq!(problem_for_name("means_to_an_end"), Some(Problem::MeansToAnEnd));
    assert_eq!(problem_for_name("budget_chat"), Some(Problem::BudgetChat));
    assert_eq!(problem_for_name("help"), None);
    assert_eq!(problem_for_name(""), None);
    assert_eq!(problem_for_name("budget_chat2"), None);
}
