use lau_token_economy::{
    uuid_from_nanos, uuid_v4, AbstractionSavings, MuscleMemory, TokenBudget, TokenCategory,
    TokenEconomy, TokenLedger,
};

#[test]
fn budget_release_undoes_reserve() {
    let mut b = TokenBudget::new(100);
    assert!(b.spend(25));
    let before = b;
    assert!(b.reserve(40));
    b.release(40);
    assert_eq!((b.total, b.used, b.reserved), (before.total, before.used, before.reserved));
}

#[test]
fn budget_spend_succeeds_exactly_within_cap() {
    let mut b = TokenBudget::new(100);
    assert!(b.reserve(30));
    assert!(!b.spend(71));
    assert_eq!(b.used, 0);
    assert!(b.spend(70));
    assert_eq!(b.remaining(), 0);
    assert!(b.used + b.reserved <= b.total);
}

#[test]
fn budget_release_more_than_reserved_stops_at_zero() {
    let mut b = TokenBudget::new(100);
    assert!(b.reserve(10));
    b.release(50);
    assert_eq!(b.reserved, 0);
    assert_eq!(b.remaining(), 100);
}

#[test]
fn budget_remaining_never_negative() {
    let mut b = TokenBudget::new(10);
    b.used = 8;
    b.reserved = 8;
    assert_eq!(b.remaining(), 0);
    // past the cap even a spend or reservation of nothing does not fit
    assert!(!b.spend(0));
    assert!(!b.reserve(0));
    assert!(!b.spend(1));
    assert_eq!((b.used, b.reserved), (8, 8));
}

#[test]
fn budget_zero_spend_fits_at_the_cap() {
    let mut b = TokenBudget::new(10);
    assert!(b.spend(10));
    assert!(b.spend(0));
    assert!(b.reserve(0));
    assert_eq!(b.used, 10);
}

#[test]
fn discount_percent_schedule() {
    let s = AbstractionSavings::new();
    let pcts: Vec<u64> = (0..8).map(|l| s.discount_percent_for_level(l)).collect();
    assert_eq!(pcts, vec![0, 0, 20, 40, 60, 75, 75, 75]);
}

#[test]
fn discount_rounds_saved_share_down() {
    let s = AbstractionSavings::new();
    // 20% of 99 is 19.8: 19 tokens are saved
    assert_eq!(s.apply_discount(2, 99), 80);
    assert_eq!(s.apply_discount(5, 3), 1);
    assert_eq!(s.apply_discount(7, 100), 25);
    assert_eq!(s.apply_discount(0, 100), 100);
}

#[test]
fn discount_never_rises_with_level() {
    let s = AbstractionSavings::new();
    for base in [0u64, 1, 7, 99, 1000, 12345] {
        let mut prev = base;
        for level in 1..8 {
            let cost = s.apply_discount(level, base);
            assert!(cost <= prev);
            prev = cost;
        }
    }
}

#[test]
fn savings_record_accumulates() {
    let mut s = AbstractionSavings::new();
    s.record(2, 100, 80);
    s.record(3, 50, 70);
    assert_eq!(s.savings, 0);
    assert_eq!(s.total_savings, 20);
    assert_eq!(s.savings_history, vec![(2, 20), (3, 20)]);
}

#[test]
fn savings_report_exact_text() {
    let mut s = AbstractionSavings::new();
    s.record(3, 200, 120);
    assert_eq!(
        s.savings_report(),
        "Abstraction Level: 3\nTotal Savings: 80 tokens\nCurrent discount: 40%\nSavings recorded: 1"
    );
}

#[test]
fn routine_decay_reaches_zero_and_never_rises() {
    let mut m = MuscleMemory::new();
    m.learn("lint", "ci", 37);
    let mut prev = m.routine_cost("lint");
    assert_eq!(prev, 37);
    for _ in 0..25 {
        let c = m.use_routine("lint");
        assert!(c <= prev);
        prev = c;
    }
    assert_eq!(prev, 0);
    assert!(m.is_free("lint"));
    let i = m.find_routine("lint").unwrap();
    assert_eq!(m.routines[i].times_used, 25);
    assert_eq!(m.routines[i].tokens_after, 0);
}

#[test]
fn routine_rounds_halves_up() {
    let mut m = MuscleMemory::new();
    m.learn("x", "d", 10);
    // 3 uses: 10 * 0.85 = 8.5 rounds to 9
    m.use_routine("x");
    m.use_routine("x");
    assert_eq!(m.use_routine("x"), 9);
}

#[test]
fn routine_level_four_halves_decayed_cost() {
    let mut m = MuscleMemory::new();
    m.learn("t", "d", 101);
    let i = m.find_routine("t").unwrap();
    m.routines[i].level = 4;
    assert_eq!(m.routine_cost("t"), 50);
    m.use_routine("t");
    // round(101 * 0.95) = 96, halved
    assert_eq!(m.routine_cost("t"), 48);
}

#[test]
fn learning_again_replaces_the_routine() {
    let mut m = MuscleMemory::new();
    m.learn("deploy", "ops", 100);
    m.use_routine("deploy");
    m.learn("other", "ops", 5);
    m.learn("deploy", "infra", 60);
    assert_eq!(m.routines.len(), 2);
    let i = m.find_routine("deploy").unwrap();
    assert_eq!(m.routines[i].domain, "infra");
    assert_eq!(m.routines[i].times_used, 0);
    assert_eq!(m.routine_cost("deploy"), 60);
}

#[test]
fn unknown_routine_use_changes_nothing() {
    let mut m = MuscleMemory::new();
    m.learn("a", "d", 10);
    assert_eq!(m.use_routine("b"), 0);
    assert_eq!(m.routines[0].times_used, 0);
}

#[test]
fn routines_report_exact_text() {
    let mut m = MuscleMemory::new();
    m.learn("deploy", "ops", 100);
    m.learn("build", "ci", 50);
    m.use_routine("deploy");
    assert_eq!(
        m.routines_report(),
        "deploy [ops] | before: 100 | after: 95 | used: 1 | level: 1\n\
         build [ci] | before: 50 | after: 50 | used: 0 | level: 1"
    );
}

#[test]
fn ledger_books_balance() {
    let mut l = TokenLedger::new(100);
    assert!(l.spend(40, TokenCategory::ToolCall, "a"));
    assert!(!l.spend(70, TokenCategory::ToolResult, "b"));
    l.tick();
    assert!(l.spend(60, TokenCategory::ToolResult, "c"));
    let sum: u64 = l.transactions.iter().map(|t| t.tokens).sum();
    assert_eq!(sum, l.budget.used);
    assert_eq!(l.transactions[1].tick, 1);
    assert_eq!(l.budget.remaining(), 0);
}

#[test]
fn breakdown_accounts_for_every_token() {
    let mut l = TokenLedger::new(1000);
    l.spend(5, TokenCategory::Delegation, "d");
    l.spend(10, TokenCategory::ToolCall, "t1");
    l.spend(7, TokenCategory::Delegation, "d2");
    l.spend(3, TokenCategory::SystemPrompt, "s");
    let b = l.category_breakdown();
    assert_eq!(
        b,
        vec![
            (TokenCategory::Delegation, 12),
            (TokenCategory::ToolCall, 10),
            (TokenCategory::SystemPrompt, 3)
        ]
    );
    let sum: u64 = b.iter().map(|(_, v)| v).sum();
    assert_eq!(sum, l.budget.used);
}

#[test]
fn transactions_by_category_keeps_order() {
    let mut l = TokenLedger::new(1000);
    l.spend(1, TokenCategory::ToolCall, "first");
    l.spend(2, TokenCategory::ContextLoad, "x");
    l.spend(3, TokenCategory::ToolCall, "second");
    let calls = l.transactions_by_category(&TokenCategory::ToolCall);
    let names: Vec<&str> = calls.iter().map(|t| t.description.as_str()).collect();
    assert_eq!(names, vec!["first", "second"]);
    assert!(l.transactions_by_category(&TokenCategory::Abstraction).is_empty());
}

#[test]
fn efficiency_report_most_expensive_first_among_equals() {
    let mut l = TokenLedger::new(1000);
    assert_eq!(l.efficiency_report().most_expensive_category, "None");
    l.spend(10, TokenCategory::ToolCall, "a");
    l.spend(30, TokenCategory::MemoryRecall, "b");
    l.spend(20, TokenCategory::ToolCall, "c");
    let r = l.efficiency_report();
    assert_eq!(r.most_expensive_category, "ToolCall");
    assert_eq!(r.task_count, 1);
    assert_eq!(r.total_tokens, 60);
    assert_eq!(r.tokens_saved_by_abstraction, 0);
    assert_eq!(r.journeyman_discount, 0);
}

#[test]
fn efficiency_trend_is_cumulative_per_tick() {
    let mut l = TokenLedger::new(1000);
    l.spend_for_task("a", 100);
    l.tick();
    l.tick();
    l.spend_for_task("b", 20);
    let r = l.efficiency_report();
    let points: Vec<(u64, u64)> = r.efficiency_trend.iter().map(|p| (p.tokens, p.transactions)).collect();
    assert_eq!(points, vec![(100, 1), (100, 1), (120, 2)]);
    assert_eq!(r.task_count, 2);
}

#[test]
fn economy_routine_prefix_match() {
    let mut e = TokenEconomy::new("a", 10_000);
    e.learn_routine("deploy", "ops", 500);
    let r = e.execute_task("deploy:staging", "ops", 600);
    assert_eq!(r.routine_used, Some("deploy".to_string()));
    assert_eq!(r.actual_cost, 475);
    assert_eq!(r.savings, 125);
    let r = e.execute_task("deployment", "ops", 600);
    assert_eq!(r.routine_used, None);
    assert_eq!(r.actual_cost, 600);
}

#[test]
fn economy_routine_not_cheaper_than_base_is_not_used() {
    let mut e = TokenEconomy::new("a", 10_000);
    e.learn_routine("deploy", "ops", 500);
    let r = e.execute_task("deploy", "ops", 100);
    assert_eq!(r.routine_used, None);
    assert_eq!(r.actual_cost, 100);
    // the routine's use still counts
    let i = e.muscle.find_routine("deploy").unwrap();
    assert_eq!(e.muscle.routines[i].times_used, 1);
}

#[test]
fn economy_routine_and_discount_combine() {
    let mut e = TokenEconomy::new("a", 10_000);
    e.learn_routine("build", "ci", 200);
    e.promote();
    e.promote();
    // level 3: routine at level 3 costs round(200 * 0.95) / 2 = 95, then 40% off: 57
    let r = e.execute_task("build", "ci", 300);
    assert_eq!(r.actual_cost, 57);
    assert_eq!(r.savings, 243);
    assert_eq!(e.savings.total_savings, 243);
    assert_eq!(e.ledger.budget.used, 57);
}

#[test]
fn economy_over_budget_still_reports_but_records_nothing() {
    let mut e = TokenEconomy::new("a", 50);
    let r = e.execute_task("huge", "x", 80);
    assert_eq!(r.actual_cost, 80);
    assert!(e.ledger.transactions.is_empty());
    assert_eq!(e.ledger.budget.used, 0);
    assert_eq!(e.savings.savings_history.len(), 1);
}

#[test]
fn economy_promotion_caps_every_level() {
    let mut e = TokenEconomy::new("a", 10);
    e.learn_routine("r", "d", 10);
    for _ in 0..10 {
        e.promote();
    }
    assert_eq!(e.savings.abstraction_level, 5);
    assert_eq!(e.muscle.routines[0].level, 5);
    assert_eq!(e.muscle.routine_cost("r"), 0);
}

#[test]
fn economy_report_exact_text() {
    let mut e = TokenEconomy::new("bob", 5000);
    e.execute_task("task1", "gen", 100);
    e.execute_task("task2", "gen", 50);
    assert_eq!(
        e.economy_report(),
        "=== Token Economy Report ===\n\
         Agent: bob\n\
         Sessions: 0\n\
         Budget: 5000 / Used: 150 / Reserved: 0\n\
         Utilization: 3.0%\n\
         Level: 1 (discount: 0%)\n\
         Total abstraction savings: 0 tokens\n\
         Routines learned: 0\n\
         Tokens/task: 75.0\n\
         Most expensive category: Compilation\n\
         Journeyman discount: 0.0%"
    );
}

#[test]
fn economy_report_rounds_to_tenths() {
    let mut e = TokenEconomy::new("z", 3);
    e.execute_task("a", "g", 1);
    e.execute_task("b", "g", 1);
    let r = e.economy_report();
    // 2 / 3 = 66.66..% and 2 tokens over 2 tasks
    assert!(r.contains("Utilization: 66.7%"));
    assert!(r.contains("Tokens/task: 1.0"));
    let z = TokenEconomy::new("z", 0);
    assert!(z.economy_report().contains("Utilization: 0.0%"));
}

#[test]
fn economy_not_efficient_when_cost_per_task_rises() {
    let mut e = TokenEconomy::new("t", 10_000);
    e.execute_task("small", "dev", 50);
    e.ledger.tick();
    e.execute_task("big", "dev", 200);
    e.ledger.tick();
    assert!(!e.is_efficient());
}

#[test]
fn uuid_from_known_readings() {
    assert_eq!(uuid_from_nanos(0), "00000000-0000-4000-8000-000000000000");
    assert_eq!(uuid_from_nanos(0x0123_4567_89ab_cdef_0011_2233), "00112233-89ba-4fdc-a222-cdef00112233");
    assert_eq!(uuid_from_nanos(1_700_000_000_123_456_789), "3d85cd15-2a12-41eb-b090-9cfe3d85cd15");
}

#[test]
fn uuid_v4_has_layout() {
    let id = uuid_v4();
    assert_eq!(id.len(), 36);
    let chars: Vec<char> = id.chars().collect();
    assert_eq!(chars[8], '-');
    assert_eq!(chars[14], '4');
    assert!(matches!(chars[19], '8' | '9' | 'a' | 'b'));
    // a real clock reading is not the epoch itself
    assert_ne!(id, "00000000-0000-4000-8000-000000000000");
}

#[test]
fn category_names() {
    assert_eq!(TokenCategory::SystemPrompt.name(), "SystemPrompt");
    assert_eq!(TokenCategory::Delegation.to_string(), "Delegation");
}
