//! A month's budget as the service returns it, and the full budget exported
//! as CSV.

use vstd::prelude::*;
use std::collections::HashMap;
use vstd::string::*;
use crate::text::{decimal, decimal_string, digit, digit_char, push_char};
use crate::types::{Category, CategoryType, FullLineItem, LineItem};

verus! {

broadcast use vstd::std_specs::hash::group_hash_axioms;

/// The line items filed under category `id`, in order.
pub open spec fn items_of_category(items: Seq<LineItem>, id: u64) -> Seq<LineItem>
    decreases items.len(),
{
    if items.len() == 0 {
        Seq::empty()
    } else if items.last().category == id {
        items_of_category(items.drop_last(), id).push(items.last())
    } else {
        items_of_category(items.drop_last(), id)
    }
}

/// Whether some category in `categories` has id `id`.
pub open spec fn has_category(categories: Seq<Category>, id: u64) -> bool {
    exists|i: int| 0 <= i < categories.len() && #[trigger] categories[i].id == id
}

proof fn lemma_items_of_category_empty(items: Seq<LineItem>, id: u64)
    ensures
        items_of_category(items, id).len() == 0 <==> forall|k: int|
            0 <= k < items.len() ==> items[k].category != id,
    decreases items.len(),
{
    if items.len() > 0 {
        lemma_items_of_category_empty(items.drop_last(), id);
        if items.last().category != id {
            assert forall|k: int| 0 <= k < items.drop_last().len() implies items.drop_last()[k]
                == items[k] by {}
        }
    }
}

/// A month's budget: the categories, each category's line items for the
/// month, and whether last month can be copied into this one.
pub struct GetBudgetResponse {
    pub categories: Vec<Category>,
    pub budget: HashMap<u64, Vec<LineItem>>,
    pub last_month_clonable: bool,
}

impl LineItem {
    /// A copy of this line item.
    pub fn duplicate(&self) -> (li: LineItem)
        ensures
            li == *self,
    {
        LineItem {
            id: self.id,
            description: self.description.clone(),
            amount: self.amount,
            category: self.category,
        }
    }
}

/// The month before `month` of `year`: December of the year before for
/// January.
pub open spec fn month_before(year: u32, month: u8) -> (u32, u8) {
    if month == 1 {
        ((year - 1) as u32, 12u8)
    } else {
        (year, (month - 1) as u8)
    }
}

/// The month before `month` of `year`.
pub fn previous_month(year: u32, month: u8) -> (r: (u32, u8))
    requires
        1 <= month <= 12,
        month == 1 ==> year >= 1,
    ensures
        r == month_before(year, month),
{
    if month == 1 {
        (year - 1, 12)
    } else {
        (year, month - 1)
    }
}

/// Assembles a month's budget from the categories, the month's line items
/// and the number of line items last month: every category gets the list of
/// its line items in order (items whose category is unknown are dropped), and
/// last month can be copied when it has line items and no category has any
/// yet this month.
pub fn assemble_budget(categories: Vec<Category>, line_items: Vec<LineItem>, last_month_count: u64) -> (r:
    GetBudgetResponse)
    ensures
        r.categories@ == categories@,
        forall|id: u64| r.budget@.contains_key(id) <==> has_category(categories@, id),
        forall|id: u64|
            #![trigger r.budget@[id]]
            r.budget@.contains_key(id) ==> r.budget@[id]@ == items_of_category(line_items@, id),
        r.last_month_clonable == (last_month_count > 0 && forall|id: u64|
            #![trigger r.budget@[id]]
            r.budget@.contains_key(id) ==> r.budget@[id]@.len() == 0),
{
    let mut budget: HashMap<u64, Vec<LineItem>> = HashMap::new();
    let mut c: usize = 0;
    while c < categories.len()
        invariant
            c <= categories.len(),
            forall|id: u64| budget@.contains_key(id) <==> has_category(categories@.take(c as int), id),
            forall|id: u64| #![trigger budget@[id]] budget@.contains_key(id) ==> budget@[id]@.len() == 0,
        decreases categories.len() - c,
    {
        let id = categories[c].id;
        budget.insert(id, Vec::new());
        proof {
            assert forall|x: u64| budget@.contains_key(x) <==> has_category(
                categories@.take(c + 1),
                x,
            ) by {
                if has_category(categories@.take(c + 1), x) && x != id {
                    let i = choose|i: int| 0 <= i < c + 1 && #[trigger] categories@.take(c + 1)[i].id == x;
                    assert(categories@.take(c as int)[i].id == x);
                }
                if has_category(categories@.take(c as int), x) {
                    let i = choose|i: int| 0 <= i < c && #[trigger] categories@.take(c as int)[i].id == x;
                    assert(categories@.take(c + 1)[i].id == x);
                }
                if x == id {
                    assert(categories@.take(c + 1)[c as int].id == x);
                }
            }
        }
        c = c + 1;
    }
    assert(categories@.take(categories.len() as int) =~= categories@);
    let mut filed = false;
    let mut i: usize = 0;
    while i < line_items.len()
        invariant
            i <= line_items.len(),
            forall|id: u64| budget@.contains_key(id) <==> has_category(categories@, id),
            forall|id: u64|
                #![trigger budget@[id]]
                budget@.contains_key(id) ==> budget@[id]@ == items_of_category(
                    line_items@.take(i as int),
                    id,
                ),
            filed == exists|k: int|
                0 <= k < i && budget@.contains_key(#[trigger] line_items@[k].category),
        decreases line_items.len() - i,
    {
        let item = line_items[i].duplicate();
        let key = item.category;
        proof {
            assert(line_items@.take(i + 1).drop_last() =~= line_items@.take(i as int));
            assert(line_items@.take(i + 1).last() == line_items@[i as int]);
        }
        match budget.remove(&key) {
            Some(mut items) => {
                items.push(item);
                budget.insert(key, items);
                filed = true;
            },
            None => {},
        }
        i = i + 1;
    }
    assert(line_items@.take(line_items.len() as int) =~= line_items@);
    proof {
        assert forall|id: u64| #[trigger] budget@.contains_key(id) implies (budget@[id]@.len() == 0
            <==> forall|k: int| 0 <= k < line_items@.len() ==> line_items@[k].category != id) by {
            lemma_items_of_category_empty(line_items@, id);
        }
        if filed {
            let k = choose|k: int| 0 <= k < line_items.len() && budget@.contains_key(#[trigger] line_items@[k].category);
            let id = line_items@[k].category;
            assert(budget@.contains_key(id) && budget@[id]@.len() != 0);
        } else {
            assert forall|id: u64| #[trigger] budget@.contains_key(id) implies budget@[id]@.len() == 0 by {
                assert forall|k: int| 0 <= k < line_items@.len() implies line_items@[k].category != id by {
                    if line_items@[k].category == id {
                        assert(budget@.contains_key(line_items@[k].category));
                    }
                }
            }
        }
    }
    assert(filed == !(forall|id: u64|
        #![trigger budget@[id]]
        budget@.contains_key(id) ==> budget@[id]@.len() == 0));
    let last_month_clonable = last_month_count > 0 && !filed;
    let ghost model = budget@;
    let r = GetBudgetResponse { categories, budget, last_month_clonable };
    assert(r.budget@ == model);
    assert(r.last_month_clonable == (last_month_count > 0 && forall|id: u64|
        #![trigger r.budget@[id]]
        r.budget@.contains_key(id) ==> r.budget@[id]@.len() == 0));
    r
}


/// The result of comparing two keys.
#[derive(Debug, Clone, Copy, PartialEq, Eq, Structural)]
pub enum Order {
    Less,
    Equal,
    Greater,
}

/// Lexicographic order on texts, character by character (for UTF-8 text this
/// is also the order of the bytes, which is how `String` compares).
pub open spec fn chars_less(a: Seq<char>, b: Seq<char>) -> bool
    decreases a.len(),
{
    if a.len() == 0 {
        b.len() > 0
    } else if b.len() == 0 {
        false
    } else if a[0] == b[0] {
        chars_less(a.drop_first(), b.drop_first())
    } else {
        (a[0] as u32) < (b[0] as u32)
    }
}

proof fn lemma_chars_less_irreflexive(a: Seq<char>)
    ensures
        !chars_less(a, a),
    decreases a.len(),
{
    if a.len() > 0 {
        lemma_chars_less_irreflexive(a.drop_first());
    }
}

proof fn lemma_chars_less_transitive(a: Seq<char>, b: Seq<char>, c: Seq<char>)
    requires
        chars_less(a, b),
        chars_less(b, c),
    ensures
        chars_less(a, c),
    decreases a.len(),
{
    if a.len() > 0 && b.len() > 0 && c.len() > 0 {
        if a[0] == b[0] && b[0] == c[0] {
            lemma_chars_less_transitive(a.drop_first(), b.drop_first(), c.drop_first());
        }
    }
}

proof fn lemma_chars_less_total(a: Seq<char>, b: Seq<char>)
    requires
        a != b,
    ensures
        chars_less(a, b) || chars_less(b, a),
    decreases a.len(),
{
    if a.len() > 0 && b.len() > 0 && a[0] == b[0] {
        if a.drop_first() == b.drop_first() {
            assert(a =~= seq![a[0]] + a.drop_first());
            assert(b =~= seq![b[0]] + b.drop_first());
        }
        lemma_chars_less_total(a.drop_first(), b.drop_first());
    }
    if a.len() > 0 && b.len() > 0 && a[0] != b[0] {
        if (a[0] as u32) == (b[0] as u32) {
            vstd::utf8::char_u32_cast(a[0], a[0] as u32);
            vstd::utf8::char_u32_cast(b[0], b[0] as u32);
        }
    }
    if a.len() == 0 && b.len() == 0 {
        assert(a =~= b);
    }
}

/// Compares two texts character by character.
pub fn compare_text(a: &String, b: &String) -> (o: Order)
    ensures
        (o == Order::Less) == chars_less(a@, b@),
        (o == Order::Equal) == (a@ == b@),
        (o == Order::Greater) == chars_less(b@, a@),
{
    let x = crate::text::chars_of(a.as_str());
    let y = crate::text::chars_of(b.as_str());
    let mut i: usize = 0;
    proof {
        assert(x@.skip(0) =~= x@);
        assert(y@.skip(0) =~= y@);
        lemma_chars_less_irreflexive(a@);
    }
    while i < x.len() && i < y.len() && x[i] == y[i]
        invariant
            x@ == a@,
            y@ == b@,
            i <= x.len(),
            i <= y.len(),
            x@.take(i as int) == y@.take(i as int),
            chars_less(a@, b@) == chars_less(x@.skip(i as int), y@.skip(i as int)),
            chars_less(b@, a@) == chars_less(y@.skip(i as int), x@.skip(i as int)),
        decreases x.len() - i,
    {
        proof {
            assert(x@.skip(i as int).drop_first() =~= x@.skip(i + 1));
            assert(y@.skip(i as int).drop_first() =~= y@.skip(i + 1));
            assert(x@.take(i + 1) =~= x@.take(i as int).push(x@[i as int]));
            assert(y@.take(i + 1) =~= y@.take(i as int).push(y@[i as int]));
        }
        i = i + 1;
    }
    proof {
        if i < x.len() && i < y.len() {
            assert(x@.skip(i as int)[0] == x@[i as int]);
            assert(y@.skip(i as int)[0] == y@[i as int]);
            assert(x@[i as int] != y@[i as int]);
            assert(a@ != b@);
        } else if i == x.len() && i == y.len() {
            assert(x@ =~= x@.take(i as int));
            assert(y@ =~= y@.take(i as int));
        } else if i == x.len() {
            assert(a@ != b@);
        } else {
            assert(a@ != b@);
        }
        lemma_chars_less_irreflexive(a@);
        if a@ != b@ {
            lemma_chars_less_total(a@, b@);
        }
        if chars_less(a@, b@) && chars_less(b@, a@) {
            lemma_chars_less_transitive(a@, b@, a@);
        }
    }
    if i < x.len() && i < y.len() {
        if (x[i] as u32) < (y[i] as u32) {
            Order::Less
        } else {
            Order::Greater
        }
    } else if i == x.len() && i == y.len() {
        Order::Equal
    } else if i == x.len() {
        Order::Less
    } else {
        Order::Greater
    }
}

/// Where a category type sorts: income before expense.
pub open spec fn type_rank(t: CategoryType) -> int {
    match t {
        CategoryType::Income => 0,
        CategoryType::Expense => 1,
    }
}

/// The key a budget entry is filed and ordered under: year, month, then the
/// category by id, name and type.
pub type EntryKey = (u32, u8, u64, Seq<char>, CategoryType);

/// Strict lexicographic order on entry keys.
pub open spec fn key_less(a: EntryKey, b: EntryKey) -> bool {
    ||| a.0 < b.0
    ||| a.0 == b.0 && a.1 < b.1
    ||| a.0 == b.0 && a.1 == b.1 && a.2 < b.2
    ||| a.0 == b.0 && a.1 == b.1 && a.2 == b.2 && chars_less(a.3, b.3)
    ||| a.0 == b.0 && a.1 == b.1 && a.2 == b.2 && a.3 == b.3 && type_rank(a.4) < type_rank(b.4)
}

proof fn lemma_key_less_irreflexive(a: EntryKey)
    ensures
        !key_less(a, a),
{
    lemma_chars_less_irreflexive(a.3);
}

proof fn lemma_key_less_transitive(a: EntryKey, b: EntryKey, c: EntryKey)
    requires
        key_less(a, b),
        key_less(b, c),
    ensures
        key_less(a, c),
{
    if a.0 == b.0 && b.0 == c.0 && a.1 == b.1 && b.1 == c.1 && a.2 == b.2 && b.2 == c.2 {
        if chars_less(a.3, b.3) && chars_less(b.3, c.3) {
            lemma_chars_less_transitive(a.3, b.3, c.3);
        }
    }
}

/// One category's line items for one month of the full budget.
pub struct BudgetEntry {
    pub year: u32,
    pub month: u8,
    pub category: Category,
    pub line_items: Vec<LineItem>,
}

/// The key of an entry.
pub open spec fn entry_key(e: BudgetEntry) -> EntryKey {
    (e.year, e.month, e.category.id, e.category.name@, e.category.category_type)
}

/// The key a line item is filed under for `category` in `month` of `year`.
pub open spec fn filing_key(year: u32, month: u8, category: Category) -> EntryKey {
    (year, month, category.id, category.name@, category.category_type)
}

/// Whether entries come in strictly ascending key order, so no key occurs
/// twice.
pub open spec fn entries_sorted(es: Seq<BudgetEntry>) -> bool {
    forall|i: int, j: int| 0 <= i < j < es.len() ==> key_less(entry_key(#[trigger] es[i]), entry_key(#[trigger] es[j]))
}

/// Whether some entry has key `k`.
pub open spec fn has_key(es: Seq<BudgetEntry>, k: EntryKey) -> bool {
    exists|j: int| 0 <= j < es.len() && entry_key(#[trigger] es[j]) == k
}

/// The line items filed under key `k` (none when no entry has that key).
pub open spec fn filed_under(es: Seq<BudgetEntry>, k: EntryKey) -> Seq<LineItem> {
    if has_key(es, k) {
        es[choose|j: int| 0 <= j < es.len() && entry_key(#[trigger] es[j]) == k].line_items@
    } else {
        Seq::empty()
    }
}

proof fn lemma_filed_under_at(es: Seq<BudgetEntry>, j: int)
    requires
        entries_sorted(es),
        0 <= j < es.len(),
    ensures
        filed_under(es, entry_key(es[j])) == es[j].line_items@,
{
    let k = entry_key(es[j]);
    assert(has_key(es, k));
    let c = choose|c: int| 0 <= c < es.len() && entry_key(#[trigger] es[c]) == k;
    if c < j {
        assert(key_less(entry_key(es[c]), entry_key(es[j])));
        lemma_key_less_irreflexive(k);
    }
    if c > j {
        assert(key_less(entry_key(es[j]), entry_key(es[c])));
        lemma_key_less_irreflexive(k);
    }
}

/// The whole budget, one entry per (year, month, category) that has line
/// items, in ascending key order: the order the CSV export lists them in.
pub struct FullBudgetResponse {
    budget: Vec<BudgetEntry>,
}

/// Whether every entry holds at least one line item.
pub open spec fn entries_nonempty(es: Seq<BudgetEntry>) -> bool {
    forall|j: int| 0 <= j < es.len() ==> (#[trigger] es[j]).line_items@.len() > 0
}

fn compare_key(year: u32, month: u8, category: &Category, e: &BudgetEntry) -> (o: Order)
    ensures
        (o == Order::Less) == key_less(filing_key(year, month, *category), entry_key(*e)),
        (o == Order::Equal) == (filing_key(year, month, *category) == entry_key(*e)),
        (o == Order::Greater) == key_less(entry_key(*e), filing_key(year, month, *category)),
{
    let ghost k = filing_key(year, month, *category);
    proof {
        lemma_chars_less_irreflexive(category.name@);
    }
    if year != e.year {
        return if year < e.year { Order::Less } else { Order::Greater };
    }
    if month != e.month {
        return if month < e.month { Order::Less } else { Order::Greater };
    }
    if category.id != e.category.id {
        return if category.id < e.category.id { Order::Less } else { Order::Greater };
    }
    match compare_text(&category.name, &e.category.name) {
        Order::Less => Order::Less,
        Order::Greater => Order::Greater,
        Order::Equal => {
            let r1: u8 = match category.category_type { CategoryType::Income => 0, CategoryType::Expense => 1 };
            let r2: u8 = match e.category.category_type { CategoryType::Income => 0, CategoryType::Expense => 1 };
            if r1 < r2 {
                Order::Less
            } else if r1 > r2 {
                Order::Greater
            } else {
                assert(category.category_type == e.category.category_type);
                Order::Equal
            }
        },
    }
}

impl FullBudgetResponse {
    /// Entries come in strictly ascending key order, so no key occurs
    /// twice, and every entry holds at least one line item.
    #[verifier::type_invariant]
    spec fn well_formed(self) -> bool {
        entries_sorted(self.budget@) && entries_nonempty(self.budget@)
    }

    /// The entries, in order.
    pub closed spec fn entries(self) -> Seq<BudgetEntry> {
        self.budget@
    }

    /// An empty budget.
    pub fn new() -> (r: FullBudgetResponse)
        ensures
            r@.len() == 0,
    {
        FullBudgetResponse { budget: Vec::new() }
    }

    /// The entries, in ascending key order with no key twice, each holding
    /// at least one line item.
    pub fn budget(&self) -> (es: &Vec<BudgetEntry>)
        ensures
            es@ == self@,
            entries_sorted(self@),
            entries_nonempty(self@),
    {
        proof {
            use_type_invariant(self);
        }
        &self.budget
    }

    /// Files `item` under `category` in `month` of `year`: appended to that
    /// key's list, which is created, in key order, if it did not exist.
    pub fn file(&mut self, year: u32, month: u8, category: Category, item: LineItem)
        ensures
            entries_sorted(final(self)@),
            entries_nonempty(final(self)@),
            has_key(final(self)@, filing_key(year, month, category)),
            forall|k: EntryKey| #[trigger] has_key(final(self)@, k) <==> (has_key(old(self)@, k)
                || k == filing_key(year, month, category)),
            forall|k: EntryKey| #[trigger] filed_under(final(self)@, k) == if k == filing_key(year, month, category) {
                filed_under(old(self)@, k).push(item)
            } else {
                filed_under(old(self)@, k)
            },
    {
        proof {
            use_type_invariant(&*self);
        }
        let mut es: Vec<BudgetEntry> = Vec::new();
        std::mem::swap(&mut es, &mut self.budget);
        file_into(&mut es, year, month, category, item);
        self.budget = es;
    }
}

impl View for FullBudgetResponse {
    type V = Seq<BudgetEntry>;

    open spec fn view(&self) -> Seq<BudgetEntry> {
        self.entries()
    }
}

/// Files `item` under `category` in `month` of `year`: appended to that
/// key's list, which is created, in key order, if it did not exist.
fn file_into(es: &mut Vec<BudgetEntry>, year: u32, month: u8, category: Category, item: LineItem)
    requires
        entries_sorted(old(es)@),
        entries_nonempty(old(es)@),
    ensures
        entries_sorted(final(es)@),
        entries_nonempty(final(es)@),
        has_key(final(es)@, filing_key(year, month, category)),
        forall|k: EntryKey| #[trigger] has_key(final(es)@, k) <==> (has_key(old(es)@, k)
            || k == filing_key(year, month, category)),
        forall|k: EntryKey| #[trigger] filed_under(final(es)@, k) == if k == filing_key(year, month, category) {
            filed_under(old(es)@, k).push(item)
        } else {
            filed_under(old(es)@, k)
        },
{
    let ghost old_es = es@;
    let ghost k = filing_key(year, month, category);
    let mut j: usize = 0;
    let mut found = false;
    while j < es.len()
        invariant_except_break
            !found,
        invariant
            es@ == old_es,
            k == filing_key(year, month, category),
            j <= old_es.len(),
            forall|i: int| 0 <= i < j ==> key_less(entry_key(#[trigger] old_es[i]), k),
        ensures
            es@ == old_es,
            j <= old_es.len(),
            forall|i: int| 0 <= i < j ==> key_less(entry_key(#[trigger] old_es[i]), k),
            found ==> j < old_es.len() && entry_key(old_es[j as int]) == k,
            !found && j < old_es.len() ==> key_less(k, entry_key(old_es[j as int])),
        decreases old_es.len() - j,
    {
        match compare_key(year, month, &category, &es[j]) {
            Order::Greater => {
                j = j + 1;
            },
            Order::Equal => {
                found = true;
                break;
            },
            Order::Less => {
                break;
            },
        }
    }
    if found {
        let mut entry = es.remove(j);
        let ghost before = entry.line_items@;
        entry.line_items.push(item);
        es.insert(j, entry);
        proof {
            let es = es@;
            assert(es =~= old_es.update(j as int, es[j as int]));
            assert(entry_key(es[j as int]) == k);
            assert(entries_sorted(es)) by {
                assert forall|a: int, b: int| 0 <= a < b < es.len() implies key_less(entry_key(#[trigger] es[a]), entry_key(#[trigger] es[b])) by {
                    assert(entry_key(es[a]) == entry_key(old_es[a]));
                    assert(entry_key(es[b]) == entry_key(old_es[b]));
                }
            }
            assert forall|x: EntryKey| #[trigger] has_key(es, x) <==> (has_key(old_es, x) || x == k) by {
                if has_key(old_es, x) {
                    let c = choose|c: int| 0 <= c < old_es.len() && entry_key(#[trigger] old_es[c]) == x;
                    assert(entry_key(es[c]) == x);
                }
                if has_key(es, x) {
                    let c = choose|c: int| 0 <= c < es.len() && entry_key(#[trigger] es[c]) == x;
                    assert(entry_key(old_es[c]) == x);
                }
            }
            assert forall|x: EntryKey| #[trigger] filed_under(es, x) == if x == k {
                filed_under(old_es, x).push(item)
            } else {
                filed_under(old_es, x)
            } by {
                if has_key(es, x) {
                    let c = choose|c: int| 0 <= c < es.len() && entry_key(#[trigger] es[c]) == x;
                    lemma_filed_under_at(es, c);
                    lemma_filed_under_at(old_es, c);
                    assert(entry_key(old_es[c]) == x);
                    if c == j {
                        assert(es[c].line_items@ == old_es[c].line_items@.push(item));
                    } else {
                        assert(es[c] == old_es[c]);
                        assert(x != k) by {
                            if x == k {
                                lemma_key_less_irreflexive(k);
                                if c < j {
                                    assert(key_less(entry_key(old_es[c]), entry_key(old_es[j as int])));
                                } else {
                                    assert(key_less(entry_key(old_es[j as int]), entry_key(old_es[c])));
                                }
                            }
                        }
                    }
                } else {
                    assert(!has_key(old_es, x));
                    assert(x != k);
                }
            }
            assert forall|a: int| 0 <= a < es.len() implies (#[trigger] es[a]).line_items@.len() > 0 by {
                if a != j {
                    assert(es[a] == old_es[a]);
                }
            }
        }
    } else {
        let ghost nl = seq![item];
        let mut items: Vec<LineItem> = Vec::new();
        items.push(item);
        let entry = BudgetEntry { year, month, category, line_items: items };
        assert(entry_key(entry) == k);
        es.insert(j, entry);
        proof {
            let es = es@;
            assert(es =~= old_es.insert(j as int, entry));
            assert forall|a: int| 0 <= a < es.len() && a != j implies #[trigger] es[a] == (if a < j { old_es[a] } else { old_es[a - 1] }) by {}
            assert(entries_sorted(es)) by {
                assert forall|a: int, b: int| 0 <= a < b < es.len() implies key_less(entry_key(#[trigger] es[a]), entry_key(#[trigger] es[b])) by {
                    if b < j {
                    } else if a > j {
                        assert(es[a] == old_es[a - 1]);
                        assert(es[b] == old_es[b - 1]);
                    } else if a == j {
                        assert(es[b] == old_es[b - 1]);
                        if b - 1 > j {
                            assert(key_less(entry_key(old_es[j as int]), entry_key(old_es[b - 1])));
                            lemma_key_less_transitive(k, entry_key(old_es[j as int]), entry_key(old_es[b - 1]));
                        }
                    } else if b == j {
                        assert(es[a] == old_es[a]);
                    } else {
                        assert(es[a] == old_es[a]);
                        assert(es[b] == old_es[b - 1]);
                        if b - 1 > j {
                            assert(key_less(entry_key(old_es[j as int]), entry_key(old_es[b - 1])));
                            lemma_key_less_transitive(k, entry_key(old_es[j as int]), entry_key(old_es[b - 1]));
                        }
                        lemma_key_less_transitive(entry_key(old_es[a]), k, entry_key(old_es[b - 1]));
                    }
                }
            }
            assert(!has_key(old_es, k)) by {
                if has_key(old_es, k) {
                    let c = choose|c: int| 0 <= c < old_es.len() && entry_key(#[trigger] old_es[c]) == k;
                    lemma_key_less_irreflexive(k);
                    if c >= j {
                        if c > j {
                            assert(key_less(entry_key(old_es[j as int]), entry_key(old_es[c])));
                            lemma_key_less_transitive(k, entry_key(old_es[j as int]), k);
                        }
                    }
                }
            }
            assert forall|x: EntryKey| #[trigger] has_key(es, x) <==> (has_key(old_es, x) || x == k) by {
                if has_key(old_es, x) {
                    let c = choose|c: int| 0 <= c < old_es.len() && entry_key(#[trigger] old_es[c]) == x;
                    if c < j {
                        assert(entry_key(es[c]) == x);
                    } else {
                        assert(entry_key(es[c + 1]) == x);
                    }
                }
                if x == k {
                    assert(entry_key(es[j as int]) == x);
                }
                if has_key(es, x) {
                    let c = choose|c: int| 0 <= c < es.len() && entry_key(#[trigger] es[c]) == x;
                    if c < j {
                        assert(entry_key(old_es[c]) == x);
                    } else if c > j {
                        assert(entry_key(old_es[c - 1]) == x);
                    }
                }
            }
            assert forall|x: EntryKey| #[trigger] filed_under(es, x) == if x == k {
                filed_under(old_es, x).push(item)
            } else {
                filed_under(old_es, x)
            } by {
                if x == k {
                    lemma_filed_under_at(es, j as int);
                    assert(es[j as int].line_items@ =~= Seq::<LineItem>::empty().push(item));
                } else if has_key(es, x) {
                    let c = choose|c: int| 0 <= c < es.len() && entry_key(#[trigger] es[c]) == x;
                    lemma_filed_under_at(es, c);
                    if c < j {
                        lemma_filed_under_at(old_es, c);
                    } else {
                        lemma_filed_under_at(old_es, c - 1);
                    }
                } else {
                    assert(!has_key(old_es, x));
                }
            }
            assert forall|a: int| 0 <= a < es.len() implies (#[trigger] es[a]).line_items@.len() > 0 by {
                if a < j {
                    assert(es[a] == old_es[a]);
                } else if a > j {
                    assert(es[a] == old_es[a - 1]);
                }
            }
        }
    }
}

/// The category key a line item is filed under: its category as the
/// categories map holds it, or the stand-in `unknown` expense category with
/// the largest id when the map has none.
pub open spec fn category_for(categories: Map<u64, Category>, id: u64) -> (u64, Seq<char>, CategoryType) {
    if categories.contains_key(id) {
        (categories[id].id, categories[id].name@, categories[id].category_type)
    } else {
        (u64::MAX, "unknown"@, CategoryType::Expense)
    }
}

/// The key a dated line item is filed under.
pub open spec fn item_key(categories: Map<u64, Category>, item: FullLineItem) -> EntryKey {
    let c = category_for(categories, item.category);
    (item.year, item.month, c.0, c.1, c.2)
}

/// A dated line item without its date.
pub open spec fn undated(item: FullLineItem) -> LineItem {
    LineItem {
        id: item.id,
        description: item.description,
        amount: item.amount,
        category: item.category,
    }
}

/// The line items, in order, that belong under key `k`.
pub open spec fn items_filed(items: Seq<FullLineItem>, categories: Map<u64, Category>, k: EntryKey) -> Seq<LineItem>
    decreases items.len(),
{
    if items.len() == 0 {
        Seq::empty()
    } else if item_key(categories, items.last()) == k {
        items_filed(items.drop_last(), categories, k).push(undated(items.last()))
    } else {
        items_filed(items.drop_last(), categories, k)
    }
}

/// Groups every line item under its year, month and category: one entry per
/// key that some line item has, in ascending key order, each holding that
/// key's line items in their original order.
pub fn group_full_budget(line_items: &Vec<FullLineItem>, categories: &HashMap<u64, Category>) -> (r: FullBudgetResponse)
    ensures
        entries_sorted(r@),
        entries_nonempty(r@),
        forall|k: EntryKey| #[trigger] has_key(r@, k) <==> exists|i: int|
            0 <= i < line_items@.len() && item_key(categories@, #[trigger] line_items@[i]) == k,
        forall|k: EntryKey| #[trigger] filed_under(r@, k) == items_filed(line_items@, categories@, k),
{
    let mut r = FullBudgetResponse::new();
    let mut i: usize = 0;
    while i < line_items.len()
        invariant
            i <= line_items.len(),
            entries_sorted(r@),
            entries_nonempty(r@),
            forall|k: EntryKey| #[trigger] has_key(r@, k) <==> exists|j: int|
                0 <= j < i && item_key(categories@, #[trigger] line_items@[j]) == k,
            forall|k: EntryKey| #[trigger] filed_under(r@, k) == items_filed(line_items@.take(i as int), categories@, k),
        decreases line_items.len() - i,
    {
        let item = &line_items[i];
        let category = match categories.get(&item.category) {
            Some(c) => c.duplicate(),
            None => Category {
                id: u64::MAX,
                name: String::from_str("unknown"),
                category_type: CategoryType::Expense,
            },
        };
        let li = LineItem {
            id: item.id,
            description: item.description.clone(),
            amount: item.amount,
            category: item.category,
        };
        let ghost k = filing_key(item.year, item.month, category);
        assert(k == item_key(categories@, line_items@[i as int]));
        assert(li == undated(line_items@[i as int]));
        let ghost before = r@;
        r.file(item.year, item.month, category, li);
        proof {
            assert(line_items@.take(i + 1).drop_last() =~= line_items@.take(i as int));
            assert(line_items@.take(i + 1).last() == line_items@[i as int]);
            assert forall|x: EntryKey| #[trigger] has_key(r@, x) <==> exists|j: int|
                0 <= j < i + 1 && item_key(categories@, #[trigger] line_items@[j]) == x by {
                if x == k {
                    assert(item_key(categories@, line_items@[i as int]) == x);
                }
                if exists|j: int| 0 <= j < i + 1 && item_key(categories@, #[trigger] line_items@[j]) == x {
                    let j = choose|j: int| 0 <= j < i + 1 && item_key(categories@, #[trigger] line_items@[j]) == x;
                    if j < i {
                        assert(has_key(before, x));
                    }
                }
            }
            assert forall|x: EntryKey| #[trigger] filed_under(r@, x) == items_filed(line_items@.take(i + 1), categories@, x) by {
                assert(filed_under(before, x) == items_filed(line_items@.take(i as int), categories@, x));
            }
        }
        i = i + 1;
    }
    assert(line_items@.take(line_items.len() as int) =~= line_items@);
    r
}

/// `cents` written as dollars: the whole dollars, then the cents after a
/// point with trailing zeros dropped (no point for whole dollars).
pub open spec fn dollars_text(cents: nat) -> Seq<char> {
    let whole = cents / 100;
    let frac = cents % 100;
    if frac == 0 {
        decimal(whole)
    } else if frac % 10 == 0 {
        decimal(whole) + seq!['.', digit_char(frac / 10)]
    } else {
        decimal(whole) + seq!['.', digit_char(frac / 10), digit_char(frac % 10)]
    }
}

/// The amount cell of a CSV row: the amount in dollars, negative for an
/// expense.
pub open spec fn amount_text(amount: u64, category_type: CategoryType) -> Seq<char> {
    match category_type {
        CategoryType::Expense => seq!['-'] + dollars_text(amount as nat),
        CategoryType::Income => dollars_text(amount as nat),
    }
}

/// The amount cell of a CSV row.
pub fn amount_cell(amount: u64, category_type: CategoryType) -> (s: String)
    ensures
        s@ == amount_text(amount, category_type),
{
    let mut s = String::new();
    match category_type {
        CategoryType::Expense => push_char(&mut s, '-'),
        CategoryType::Income => {},
    }
    let whole = amount / 100;
    let frac = amount % 100;
    let w = decimal_string(whole as u128);
    s.append(w.as_str());
    if frac != 0 {
        push_char(&mut s, '.');
        push_char(&mut s, digit((frac / 10) as u128));
        if frac % 10 != 0 {
            push_char(&mut s, digit((frac % 10) as u128));
        }
    }
    assert(s@ =~= amount_text(amount, category_type));
    s
}

/// The first line of the CSV export.
pub const CSV_HEADER: &'static str = "year,month,category,description,amount\n";

/// One CSV row: year, month, category name, description, amount.
pub open spec fn csv_row(e: BudgetEntry, item: LineItem) -> Seq<char> {
    decimal(e.year as nat) + seq![','] + decimal(e.month as nat) + seq![','] + e.category.name@
        + seq![','] + item.description@ + seq![','] + amount_text(item.amount, e.category.category_type)
        + seq!['\n']
}

/// The rows of `items` under entry `e`, in order.
pub open spec fn entry_rows(e: BudgetEntry, items: Seq<LineItem>) -> Seq<char>
    decreases items.len(),
{
    if items.len() == 0 {
        Seq::empty()
    } else {
        entry_rows(e, items.drop_last()) + csv_row(e, items.last())
    }
}

/// The rows of all entries, in order.
pub open spec fn budget_rows(es: Seq<BudgetEntry>) -> Seq<char>
    decreases es.len(),
{
    if es.len() == 0 {
        Seq::empty()
    } else {
        budget_rows(es.drop_last()) + entry_rows(es.last(), es.last().line_items@)
    }
}

fn row_text(e: &BudgetEntry, item: &LineItem) -> (s: String)
    ensures
        s@ == csv_row(*e, *item),
{
    let mut s = decimal_string(e.year as u128);
    push_char(&mut s, ',');
    let m = decimal_string(e.month as u128);
    s.append(m.as_str());
    push_char(&mut s, ',');
    s.append(e.category.name.as_str());
    push_char(&mut s, ',');
    s.append(item.description.as_str());
    push_char(&mut s, ',');
    let a = amount_cell(item.amount, e.category.category_type);
    s.append(a.as_str());
    push_char(&mut s, '\n');
    assert(s@ =~= csv_row(*e, *item));
    s
}

impl FullBudgetResponse {
    /// The budget as CSV: the header line, then one row per line item, entry
    /// by entry in order.
    pub fn as_csv(&self) -> (csv: String)
        ensures
            csv@ == CSV_HEADER@ + budget_rows(self@),
            entries_sorted(self@),
            entries_nonempty(self@),
    {
        proof {
            use_type_invariant(self);
        }
        let mut csv = String::from_str(CSV_HEADER);
        let mut i: usize = 0;
        while i < self.budget.len()
            invariant
                i <= self.budget.len(),
                csv@ == CSV_HEADER@ + budget_rows(self.budget@.take(i as int)),
            decreases self.budget.len() - i,
        {
            let e = &self.budget[i];
            let ghost prefix = csv@;
            let mut k: usize = 0;
            while k < e.line_items.len()
                invariant
                    k <= e.line_items.len(),
                    csv@ == prefix + entry_rows(*e, e.line_items@.take(k as int)),
                decreases e.line_items.len() - k,
            {
                let row = row_text(e, &e.line_items[k]);
                csv.append(row.as_str());
                proof {
                    assert(e.line_items@.take(k + 1).drop_last() =~= e.line_items@.take(k as int));
                    assert(e.line_items@.take(k + 1).last() == e.line_items@[k as int]);
                }
                k = k + 1;
                assert(csv@ =~= prefix + entry_rows(*e, e.line_items@.take(k as int)));
            }
            proof {
                assert(e.line_items@.take(e.line_items.len() as int) =~= e.line_items@);
                assert(self.budget@.take(i + 1).drop_last() =~= self.budget@.take(i as int));
                assert(self.budget@.take(i + 1).last() == *e);
            }
            i = i + 1;
            assert(csv@ =~= CSV_HEADER@ + budget_rows(self.budget@.take(i as int)));
        }
        assert(self.budget@.take(self.budget.len() as int) =~= self.budget@);
        csv
    }
}

} // verus!
