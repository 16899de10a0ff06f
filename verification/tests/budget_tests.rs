use budget_lib::budget::{
    amount_cell, assemble_budget, compare_text, group_full_budget, previous_month,
    FullBudgetResponse, Order, CSV_HEADER,
};
use budget_lib::types::{Category, CategoryType, FullLineItem, LineItem};
use std::collections::HashMap;

fn category(id: u64, name: &str, category_type: CategoryType) -> Category {
    Category { id, name: name.to_string(), category_type }
}

fn item(id: u64, description: &str, amount: u64, category: u64) -> LineItem {
    LineItem { id, description: description.to_string(), amount, category }
}

fn dated(year: u32, month: u8, id: u64, description: &str, amount: u64, category: u64) -> FullLineItem {
    FullLineItem { month, year, id, description: description.to_string(), amount, category }
}

#[test]
fn full_budget_csv_includes_multiple_items_in_same_category() {
    let groceries = || category(1, "Groceries", CategoryType::Expense);
    let mut budget = FullBudgetResponse::new();
    budget.file(2026, 1, groceries(), item(1, "Milk", 499, 1));
    budget.file(2026, 1, groceries(), item(2, "Bread", 349, 1));

    let csv = budget.as_csv();

    assert!(csv.contains("2026,1,Groceries,Milk,-4.99\n"));
    assert!(csv.contains("2026,1,Groceries,Bread,-3.49\n"));
}

#[test]
fn csv_lists_the_header_then_every_row_in_order() {
    let mut budget = FullBudgetResponse::new();
    // Filed out of order: the export still runs in ascending month order.
    budget.file(2026, 2, category(2, "Rent", CategoryType::Expense), item(2, "Flat", 120_050, 2));
    budget.file(2026, 1, category(1, "Salary", CategoryType::Income), item(1, "March pay", 250_000, 1));
    budget.file(2026, 2, category(2, "Rent", CategoryType::Expense), item(3, "Deposit", 0, 2));
    let csv = budget.as_csv();
    assert_eq!(
        csv,
        "year,month,category,description,amount\n\
         2026,1,Salary,March pay,2500\n\
         2026,2,Rent,Flat,-1200.5\n\
         2026,2,Rent,Deposit,-0\n"
    );
    assert_eq!(FullBudgetResponse::new().as_csv(), CSV_HEADER);
}

#[test]
fn amount_cells_drop_trailing_zero_cents() {
    assert_eq!(amount_cell(499, CategoryType::Expense), "-4.99");
    assert_eq!(amount_cell(349, CategoryType::Income), "3.49");
    assert_eq!(amount_cell(350, CategoryType::Income), "3.5");
    assert_eq!(amount_cell(500, CategoryType::Income), "5");
    assert_eq!(amount_cell(5, CategoryType::Income), "0.05");
    assert_eq!(amount_cell(0, CategoryType::Income), "0");
    assert_eq!(amount_cell(0, CategoryType::Expense), "-0");
    assert_eq!(amount_cell(123_456_789, CategoryType::Expense), "-1234567.89");
}

#[test]
fn grouping_files_items_by_month_and_category_in_key_order() {
    let mut categories = HashMap::new();
    categories.insert(1, category(1, "Groceries", CategoryType::Expense));
    categories.insert(2, category(2, "Salary", CategoryType::Income));
    let items = vec![
        dated(2026, 2, 10, "Eggs", 300, 1),
        dated(2026, 1, 11, "Pay", 100_000, 2),
        dated(2026, 2, 12, "Milk", 250, 1),
        dated(2026, 1, 13, "Mystery", 7, 99),
        dated(2025, 12, 14, "Bread", 400, 1),
    ];
    let r = group_full_budget(&items, &categories);
    let keys: Vec<(u32, u8, u64)> = r.budget().iter().map(|e| (e.year, e.month, e.category.id)).collect();
    assert_eq!(keys, vec![(2025, 12, 1), (2026, 1, 2), (2026, 1, u64::MAX), (2026, 2, 1)]);
    let unknown = &r.budget()[2];
    assert_eq!(unknown.category.name, "unknown");
    assert_eq!(unknown.category.category_type, CategoryType::Expense);
    assert_eq!(unknown.line_items[0].description, "Mystery");
    assert_eq!(unknown.line_items[0].category, 99);
    let feb: Vec<&str> = r.budget()[3].line_items.iter().map(|li| li.description.as_str()).collect();
    assert_eq!(feb, vec!["Eggs", "Milk"]);
    assert_eq!(r.budget()[3].line_items[1].id, 12);
    assert_eq!(r.budget()[3].line_items[1].amount, 250);
    let csv = r.as_csv();
    assert!(csv.contains("2026,1,unknown,Mystery,-0.07\n"));
    assert!(csv.contains("2026,1,Salary,Pay,1000\n"));
}

#[test]
fn grouping_nothing_gives_an_empty_budget() {
    let r = group_full_budget(&Vec::new(), &HashMap::new());
    assert!(r.budget().is_empty());
}

#[test]
fn filing_keeps_entries_sorted_and_appends() {
    let mut r = FullBudgetResponse::new();
    r.file(2026, 3, category(5, "B", CategoryType::Income), item(1, "x", 1, 5));
    r.file(2026, 3, category(5, "A", CategoryType::Income), item(2, "y", 2, 5));
    r.file(2026, 3, category(5, "B", CategoryType::Income), item(3, "z", 3, 5));
    r.file(2026, 3, category(5, "B", CategoryType::Expense), item(4, "w", 4, 5));
    let names: Vec<(&str, CategoryType, usize)> = r
        .budget()
        .iter()
        .map(|e| (e.category.name.as_str(), e.category.category_type, e.line_items.len()))
        .collect();
    assert_eq!(
        names,
        vec![("A", CategoryType::Income, 1), ("B", CategoryType::Income, 2), ("B", CategoryType::Expense, 1)]
    );
    assert_eq!(r.budget()[1].line_items[1].id, 3);
}

#[test]
fn text_order_is_lexicographic() {
    let s = |x: &str| x.to_string();
    assert_eq!(compare_text(&s("abc"), &s("abd")), Order::Less);
    assert_eq!(compare_text(&s("ab"), &s("abc")), Order::Less);
    assert_eq!(compare_text(&s("b"), &s("abc")), Order::Greater);
    assert_eq!(compare_text(&s("same"), &s("same")), Order::Equal);
    assert_eq!(compare_text(&s(""), &s("")), Order::Equal);
    assert_eq!(compare_text(&s("Z"), &s("a")), Order::Less);
}

#[test]
fn the_month_before_wraps_at_january() {
    assert_eq!(previous_month(2026, 1), (2025, 12));
    assert_eq!(previous_month(2026, 5), (2026, 4));
    assert_eq!(previous_month(2026, 12), (2026, 11));
}

#[test]
fn a_month_budget_lists_each_category_with_its_items() {
    let categories = vec![
        category(1, "Groceries", CategoryType::Expense),
        category(2, "Salary", CategoryType::Income),
    ];
    let items = vec![item(1, "Milk", 499, 1), item(2, "Stray", 1, 3), item(3, "Bread", 349, 1)];
    let r = assemble_budget(categories, items, 4);
    assert_eq!(r.categories.len(), 2);
    assert_eq!(r.categories[1].name, "Salary");
    assert_eq!(r.budget.len(), 2);
    let groceries: Vec<&str> = r.budget[&1].iter().map(|li| li.description.as_str()).collect();
    assert_eq!(groceries, vec!["Milk", "Bread"]);
    assert!(r.budget[&2].is_empty());
    assert!(!r.budget.contains_key(&3));
    assert!(!r.last_month_clonable);
}

#[test]
fn last_month_is_clonable_only_into_an_empty_month() {
    let cats = || vec![category(1, "Groceries", CategoryType::Expense)];
    assert!(assemble_budget(cats(), Vec::new(), 3).last_month_clonable);
    assert!(!assemble_budget(cats(), Vec::new(), 0).last_month_clonable);
    assert!(!assemble_budget(cats(), vec![item(1, "Milk", 1, 1)], 3).last_month_clonable);
    // An item of an unknown category does not count against cloning.
    assert!(assemble_budget(cats(), vec![item(1, "Stray", 1, 9)], 3).last_month_clonable);
    assert!(assemble_budget(Vec::new(), Vec::new(), 1).last_month_clonable);
}

#[test]
fn duplicates_are_equal_copies() {
    let li = item(7, "Tea", 120, 2);
    let d = li.duplicate();
    assert_eq!((d.id, d.description.as_str(), d.amount, d.category), (7, "Tea", 120, 2));
    let c = category(3, "Fun", CategoryType::Income).duplicate();
    assert_eq!((c.id, c.name.as_str(), c.category_type), (3, "Fun", CategoryType::Income));
}
