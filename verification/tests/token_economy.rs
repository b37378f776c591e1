use lau_token_economy::{
    AbstractionSavings, MuscleMemory, TaskTokenResult, TokenBudget,
    TokenCategory, TokenEconomy, TokenLedger, TokenTransaction,
};

fn breakdown_get<'a>(map: &'a [(TokenCategory, u64)], name: &str) -> Option<&'a u64> {
    map.iter().find(|(c, _)| c.name() == name).map(|(_, v)| v)
}

fn discount_applied(result: &TaskTokenResult) -> f64 {
    if result.base_cost == 0 {
        0.0
    } else {
        result.savings as f64 / result.base_cost as f64
    }
}

fn routine_index(m: &MuscleMemory, name: &str) -> usize {
    m.find_routine(name).expect("routine is known")
}

// ---- TokenBudget ----

#[test]
fn test_budget_new() {
    let b = TokenBudget::new(1000);
    assert_eq!(b.total, 1000);
    assert_eq!(b.used, 0);
    assert_eq!(b.reserved, 0);
}

#[test]
fn test_budget_spend_ok() {
    let mut b = TokenBudget::new(100);
    assert!(b.spend(40));
    assert_eq!(b.used, 40);
    assert_eq!(b.remaining(), 60);
}

#[test]
fn test_budget_spend_over() {
    let mut b = TokenBudget::new(100);
    assert!(b.spend(100));
    assert!(!b.spend(1));
}

#[test]
fn test_budget_reserve_and_release() {
    let mut b = TokenBudget::new(100);
    assert!(b.reserve(30));
    assert_eq!(b.reserved, 30);
    assert_eq!(b.remaining(), 70);
    b.release(10);
    assert_eq!(b.reserved, 20);
    assert_eq!(b.remaining(), 80);
}

#[test]
fn test_budget_reserve_over() {
    let mut b = TokenBudget::new(50);
    assert!(!b.reserve(100));
    assert_eq!(b.reserved, 0);
}

// ---- TokenTransaction ----

#[test]
fn test_transaction_new() {
    let tx = TokenTransaction::new(42, TokenCategory::ToolCall, "ls -la", 5);
    assert_eq!(tx.tokens, 42);
    assert_eq!(tx.category, TokenCategory::ToolCall);
    assert_eq!(tx.description, "ls -la");
    assert_eq!(tx.tick, 5);
    assert!(!tx.id.is_empty());
}

// ---- TokenLedger ----

#[test]
fn test_ledger_new() {
    let l = TokenLedger::new(500);
    assert_eq!(l.budget.total, 500);
    assert!(l.transactions.is_empty());
}

#[test]
fn test_ledger_spend_ok() {
    let mut l = TokenLedger::new(100);
    assert!(l.spend(30, TokenCategory::ModelInference, "test inference"));
    assert_eq!(l.transactions.len(), 1);
    assert_eq!(l.budget.used, 30);
}

#[test]
fn test_ledger_spend_over() {
    let mut l = TokenLedger::new(10);
    assert!(!l.spend(20, TokenCategory::ModelInference, "too much"));
}

#[test]
fn test_ledger_spend_for_task() {
    let mut l = TokenLedger::new(100);
    assert!(l.spend_for_task("build", 50));
    assert_eq!(l.transactions[0].category, TokenCategory::Compilation);
    assert_eq!(l.transactions[0].description, "build");
}

#[test]
fn test_ledger_by_category() {
    let mut l = TokenLedger::new(1000);
    l.spend(10, TokenCategory::ToolCall, "tool1");
    l.spend(20, TokenCategory::ToolCall, "tool2");
    l.spend(30, TokenCategory::ContextLoad, "ctx");
    let calls = l.transactions_by_category(&TokenCategory::ToolCall);
    assert_eq!(calls.len(), 2);
    assert_eq!(l.total_by_category(&TokenCategory::ToolCall), 30);
    assert_eq!(l.total_by_category(&TokenCategory::ContextLoad), 30);
}

#[test]
fn test_ledger_category_breakdown() {
    let mut l = TokenLedger::new(1000);
    l.spend(10, TokenCategory::MemoryRecall, "mem1");
    l.spend(20, TokenCategory::MemoryRecall, "mem2");
    l.spend(50, TokenCategory::Delegation, "delegate");
    let map = l.category_breakdown();
    assert_eq!(breakdown_get(&map, "MemoryRecall"), Some(&30));
    assert_eq!(breakdown_get(&map, "Delegation"), Some(&50));
}

#[test]
fn test_ledger_tick() {
    let mut l = TokenLedger::new(1000);
    assert_eq!(l.tick, 0);
    l.tick();
    assert_eq!(l.tick, 1);
}

#[test]
fn test_ledger_efficiency_report() {
    let mut l = TokenLedger::new(1000);
    l.spend_for_task("task1", 100);
    l.tick();
    l.spend_for_task("task2", 50);
    let report = l.efficiency_report();
    assert_eq!(report.total_tokens, 150);
    let tokens_per_task = report.total_tokens as f64 / report.task_count as f64;
    assert!((tokens_per_task - 75.0).abs() < 1e-10);
    assert_eq!(report.most_expensive_category, "Compilation");
    assert!(report.efficiency_trend.len() >= 2);
}

// ---- AbstractionSavings ----

#[test]
fn test_savings_new() {
    let s = AbstractionSavings::new();
    assert_eq!(s.abstraction_level, 1);
    assert_eq!(s.total_savings, 0);
}

#[test]
fn test_savings_record() {
    let mut s = AbstractionSavings::new();
    s.record(2, 100, 80);
    assert_eq!(s.savings, 20);
    assert_eq!(s.total_savings, 20);
    assert_eq!(s.savings_history.len(), 1);
}

#[test]
fn test_savings_apply_discount() {
    let s = AbstractionSavings::new();
    assert_eq!(s.apply_discount(1, 100), 100);
    assert_eq!(s.apply_discount(2, 100), 80);
    assert_eq!(s.apply_discount(3, 100), 60);
    assert_eq!(s.apply_discount(4, 100), 40);
    assert_eq!(s.apply_discount(5, 100), 25);
}

#[test]
fn test_savings_report() {
    let mut s = AbstractionSavings::new();
    s.record(3, 200, 120);
    let r = s.savings_report();
    assert!(r.contains("Level: 3"));
    assert!(r.contains("80 tokens")); // savings
}

// ---- MuscleMemory ----

#[test]
fn test_muscle_new() {
    let m = MuscleMemory::new();
    assert!(m.routines.is_empty());
}

#[test]
fn test_muscle_learn() {
    let mut m = MuscleMemory::new();
    m.learn("deploy", "devops", 100);
    assert!(m.find_routine("deploy").is_some());
    assert_eq!(m.routines[routine_index(&m, "deploy")].tokens_before, 100);
}

#[test]
fn test_muscle_use_and_decay() {
    let mut m = MuscleMemory::new();
    m.learn("git push", "git", 100);
    let cost1 = m.use_routine("git push");
    assert_eq!(cost1, 95); // 5% decay (100*0.95=95)
    let cost2 = m.use_routine("git push");
    assert_eq!(cost2, 90); // 10% decay (100*0.90=90)
    let cost3 = m.use_routine("git push");
    assert_eq!(cost3, 85); // 15% decay (100*0.85=85)
}

#[test]
fn test_muscle_level_milestones() {
    let mut m = MuscleMemory::new();
    m.learn("build", "ci", 100);
    // Level 1, 20 uses should get to free via decay
    for _ in 0..20 {
        m.use_routine("build");
    }
    assert_eq!(m.routine_cost("build"), 0);
}

#[test]
fn test_muscle_level_three_half_cost() {
    let mut m = MuscleMemory::new();
    m.learn("test", "ci", 100);
    // Manually set level to 3
    let i = routine_index(&m, "test");
    m.routines[i].level = 3;
    // 0 uses → decay doesn't apply, but level 3 = half cost
    assert_eq!(m.routine_cost("test"), 50);
}

#[test]
fn test_muscle_level_five_free() {
    let mut m = MuscleMemory::new();
    m.learn("deploy", "ops", 500);
    let i = routine_index(&m, "deploy");
    m.routines[i].level = 5;
    assert_eq!(m.routine_cost("deploy"), 0);
    assert!(m.is_free("deploy"));
}

#[test]
fn test_muscle_unknown_routine() {
    let m = MuscleMemory::new();
    assert_eq!(m.routine_cost("nonexistent"), 0);
    assert!(!m.is_free("nonexistent"));
}

#[test]
fn test_muscle_routines_report_empty() {
    let m = MuscleMemory::new();
    assert_eq!(m.routines_report(), "No routines learned yet.");
}

// ---- TokenEconomy ----

#[test]
fn test_economy_new() {
    let e = TokenEconomy::new("agent-1", 10_000);
    assert_eq!(e.agent_id, "agent-1");
    assert_eq!(e.ledger.budget.total, 10_000);
    assert_eq!(e.session_count, 0);
}

#[test]
fn test_economy_execute_task_base() {
    let mut e = TokenEconomy::new("test-agent", 10_000);
    let result = e.execute_task("compile", "dev", 200);
    assert_eq!(result.base_cost, 200);
    assert_eq!(result.actual_cost, 200); // Level 1 = no discount
    assert_eq!(result.savings, 0);
    assert_eq!(result.task, "compile");
    assert!(result.routine_used.is_none());
}

#[test]
fn test_economy_execute_task_with_discount() {
    let mut e = TokenEconomy::new("test-agent", 10_000);
    e.promote(); // level 2 → 20% discount
    let result = e.execute_task("build", "dev", 100);
    assert_eq!(result.actual_cost, 80);
    assert_eq!(result.savings, 20);
    assert!((discount_applied(&result) - 0.20).abs() < 1e-10);
}

#[test]
fn test_economy_execute_task_with_routine() {
    let mut e = TokenEconomy::new("test-agent", 10_000);
    e.learn_routine("deploy", "ops", 500);
    let result = e.execute_task("deploy", "ops", 500);
    assert_eq!(result.routine_used, Some("deploy".to_string()));
    // Level 1, first use → 5% decay = 475
    assert_eq!(result.actual_cost, 475);
}

#[test]
fn test_economy_learn_and_use_muscle() {
    let mut e = TokenEconomy::new("agent-x", 10_000);
    e.learn_routine("git commit", "git", 50);
    let cost = e.use_muscle_memory("git commit");
    // 5% off 50 = 2.5, round(47.5) = 48
    assert_eq!(cost, 48);
}

#[test]
fn test_economy_promote() {
    let mut e = TokenEconomy::new("agent", 10_000);
    assert_eq!(e.savings.abstraction_level, 1);
    e.learn_routine("fmt", "fmt", 100);
    assert_eq!(e.muscle.routines[routine_index(&e.muscle, "fmt")].level, 1);

    e.promote();
    assert_eq!(e.savings.abstraction_level, 2);
    assert_eq!(e.muscle.routines[routine_index(&e.muscle, "fmt")].level, 2);

    // Promote to max
    for _ in 0..5 {
        e.promote();
    }
    assert_eq!(e.savings.abstraction_level, 5);
    assert_eq!(e.muscle.routines[routine_index(&e.muscle, "fmt")].level, 5);
}

#[test]
fn test_economy_economy_report() {
    let mut e = TokenEconomy::new("bob", 5000);
    e.execute_task("task1", "gen", 100);
    e.execute_task("task2", "gen", 50);
    let report = e.economy_report();
    assert!(report.contains("bob"));
    assert!(report.contains("Budget: 5000"));
    assert!(report.contains("Level: 1"));
}

#[test]
fn test_economy_is_efficient_not_enough_data() {
    let e = TokenEconomy::new("t", 1000);
    assert!(!e.is_efficient());
}

#[test]
fn test_economy_is_efficient() {
    let mut e = TokenEconomy::new("t", 10_000);
    e.execute_task("big", "dev", 200);
    e.ledger.tick();
    e.execute_task("med", "dev", 100);
    e.ledger.tick();
    e.execute_task("small", "dev", 50);
    e.ledger.tick();
    assert!(e.is_efficient());
}
