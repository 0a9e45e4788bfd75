//! The store: every relation of the point-of-sale database, held in memory
//! and addressed by id.
//!
//! The logical content of the store is its [`StoreView`]: one map per
//! relation, plus the optional license record.  Every write is an
//! insert-or-replace by primary key, deletes of missing ids are no-ops, and
//! an order's line items are replaced as a unit with their order row.
//! Durable storage (an embedded database file) lives outside this crate;
//! a host loads rows through the `create_*` methods and mirrors each write.

use vstd::prelude::*;

use crate::kv::{
    lemma_map_remove_absent, lemma_seq_to_map_absent, lemma_seq_to_map_index, lemma_seq_to_map_push,
    lemma_seq_to_map_push_any, lemma_seq_to_map_remove, lemma_seq_to_map_update, unique_keys,
};
use crate::license::LicenseKey;
use crate::models::{
    categories_map, category_key, order_key, order_views, orders_map, product_key, products_map,
    table_key, tables_map, user_key, user_views, users_map, Category, ExportData, ImportData,
    Order, OrderV, Product, Table, User, UserV,
};

verus! {

/// The logical content of the store: one map per relation, keyed by id,
/// plus at most one license record.
#[verifier::ext_equal]
pub struct StoreView {
    pub products: Map<i64, Product>,
    pub categories: Map<i64, Category>,
    pub orders: Map<i64, OrderV>,
    pub tables: Map<i64, Table>,
    pub users: Map<i64, UserV>,
    pub license: Option<LicenseKey>,
}

/// The content of a store with nothing in it.
pub open spec fn empty_store() -> StoreView {
    StoreView {
        products: Map::<i64, Product>::empty(),
        categories: Map::<i64, Category>::empty(),
        orders: Map::<i64, OrderV>::empty(),
        tables: Map::<i64, Table>::empty(),
        users: Map::<i64, UserV>::empty(),
        license: None,
    }
}

/// What a snapshot restore does to a store's content: each supplied
/// collection is upserted row by row, so it joins the map with the
/// snapshot winning on common ids; absent optional collections change
/// nothing; the license record is untouched.
pub open spec fn import_applied(v: StoreView, data: ImportData) -> StoreView {
    StoreView {
        products: v.products.union_prefer_right(products_map(data.products@)),
        categories: v.categories.union_prefer_right(categories_map(data.categories@)),
        orders: v.orders.union_prefer_right(orders_map(order_views(data.orders@))),
        tables: match data.tables {
            Some(ts) => v.tables.union_prefer_right(tables_map(ts@)),
            None => v.tables,
        },
        users: match data.users {
            Some(us) => v.users.union_prefer_right(users_map(user_views(us@))),
            None => v.users,
        },
        license: v.license,
    }
}

/// What wiping the data relations does to a store's content: every map
/// empties; the license record is untouched.
pub open spec fn cleared(v: StoreView) -> StoreView {
    StoreView { license: v.license, ..empty_store() }
}

pub struct Database {
    products: Vec<Product>,
    categories: Vec<Category>,
    orders: Vec<Order>,
    tables: Vec<Table>,
    users: Vec<User>,
    license: Option<LicenseKey>,
}

impl View for Database {
    type V = StoreView;

    closed spec fn view(&self) -> StoreView {
        StoreView {
            products: products_map(self.products@),
            categories: categories_map(self.categories@),
            orders: orders_map(order_views(self.orders@)),
            tables: tables_map(self.tables@),
            users: users_map(user_views(self.users@)),
            license: self.license,
        }
    }
}

impl Database {
    /// Each relation holds pairwise-distinct ids.
    pub closed spec fn wf(&self) -> bool {
        &&& unique_keys(self.products@, product_key())
        &&& unique_keys(self.categories@, category_key())
        &&& unique_keys(order_views(self.orders@), order_key())
        &&& unique_keys(self.tables@, table_key())
        &&& unique_keys(user_views(self.users@), user_key())
    }

    /// A fresh, empty store.
    pub fn new() -> (db: Database)
        ensures
            db.wf(),
            db@ == empty_store(),
    {
        let db = Database {
            products: Vec::new(),
            categories: Vec::new(),
            orders: Vec::new(),
            tables: Vec::new(),
            users: Vec::new(),
            license: None,
        };
        proof {
            assert(order_views(db.orders@) =~= Seq::<OrderV>::empty());
            assert(user_views(db.users@) =~= Seq::<UserV>::empty());
            assert(db@ =~= empty_store());
        }
        db
    }

    // ==================== Products ====================

    fn find_product(&self, id: i64) -> (r: Option<usize>)
        ensures
            match r {
                Some(i) => i < self.products@.len() && self.products@[i as int].id == id,
                None => forall|j: int|
                    0 <= j < self.products@.len() ==> (#[trigger] self.products@[j]).id != id,
            },
    {
        let mut i: usize = 0;
        while i < self.products.len()
            invariant
                i <= self.products.len(),
                forall|j: int| 0 <= j < i ==> (#[trigger] self.products@[j]).id != id,
            decreases self.products.len() - i,
        {
            if self.products[i].id == id {
                return Some(i);
            }
            i += 1;
        }
        None
    }

    /// Store every row, in storage order; ids are pairwise distinct and the
    /// rows are exactly the store's product map.
    pub fn get_products(&self) -> (r: Vec<Product>)
        requires
            self.wf(),
        ensures
            products_map(r@) == self@.products,
            unique_keys(r@, product_key()),
            forall|i: int| 0 <= i < r@.len()
                ==> self@.products.contains_key((#[trigger] r@[i]).id)
                    && self@.products[r@[i].id] == r@[i],
    {
        let mut r: Vec<Product> = Vec::new();
        let mut i: usize = 0;
        while i < self.products.len()
            invariant
                i <= self.products.len(),
                r@ =~= self.products@.take(i as int),
            decreases self.products.len() - i,
        {
            r.push(self.products[i].dup());
            proof {
                assert(self.products@.take(i + 1 as int)
                    =~= self.products@.take(i as int).push(self.products@[i as int]));
            }
            i += 1;
        }
        proof {
            assert(self.products@.take(self.products@.len() as int) =~= self.products@);
            assert forall|i: int| 0 <= i < r@.len() implies self@.products.contains_key(
                (#[trigger] r@[i]).id,
            ) && self@.products[r@[i].id] == r@[i] by {
                lemma_seq_to_map_index(r@, product_key(), i);
            }
        }
        r
    }

    /// Insert-or-replace by id: afterwards the product map carries exactly
    /// this row under `product.id`, and nothing else changes.
    pub fn create_product(&mut self, product: &Product)
        requires
            old(self).wf(),
        ensures
            final(self).wf(),
            final(self)@ == (StoreView {
                products: old(self)@.products.insert(product.id, *product),
                ..old(self)@
            }),
    {
        let ghost s = self.products@;
        match self.find_product(product.id) {
            Some(i) => {
                proof {
                    lemma_seq_to_map_update(s, product_key(), i as int, *product);
                }
                self.products.set(i, product.dup());
            },
            None => {
                proof {
                    lemma_seq_to_map_push(s, product_key(), *product);
                }
                self.products.push(product.dup());
            },
        }
    }

    /// Same write as [`Self::create_product`]: a full-row overwrite keyed by
    /// id (there is no partial-update path).
    pub fn update_product(&mut self, product: &Product)
        requires
            old(self).wf(),
        ensures
            final(self).wf(),
            final(self)@ == (StoreView {
                products: old(self)@.products.insert(product.id, *product),
                ..old(self)@
            }),
    {
        self.create_product(product);
    }

    /// Remove the row with this id; a missing id is a silent no-op.
    pub fn delete_product(&mut self, id: i64)
        requires
            old(self).wf(),
        ensures
            final(self).wf(),
            final(self)@ == (StoreView {
                products: old(self)@.products.remove(id),
                ..old(self)@
            }),
    {
        let ghost s = self.products@;
        match self.find_product(id) {
            Some(i) => {
                proof {
                    lemma_seq_to_map_remove(s, product_key(), i as int);
                }
                self.products.remove(i);
            },
            None => {
                proof {
                    lemma_seq_to_map_absent(s, product_key(), id);
                    lemma_map_remove_absent(products_map(s), id);
                }
            },
        }
    }
    // ==================== Categories ====================

    fn find_category(&self, id: i64) -> (r: Option<usize>)
        ensures
            match r {
                Some(i) => i < self.categories@.len() && self.categories@[i as int].id == id,
                None => forall|j: int|
                    0 <= j < self.categories@.len() ==> (#[trigger] self.categories@[j]).id != id,
            },
    {
        let mut i: usize = 0;
        while i < self.categories.len()
            invariant
                i <= self.categories.len(),
                forall|j: int| 0 <= j < i ==> (#[trigger] self.categories@[j]).id != id,
            decreases self.categories.len() - i,
        {
            if self.categories[i].id == id {
                return Some(i);
            }
            i += 1;
        }
        None
    }

    /// Store every row, in storage order; ids are pairwise distinct and the
    /// rows are exactly the store's category map.
    pub fn get_categories(&self) -> (r: Vec<Category>)
        requires
            self.wf(),
        ensures
            categories_map(r@) == self@.categories,
            unique_keys(r@, category_key()),
            forall|i: int| 0 <= i < r@.len()
                ==> self@.categories.contains_key((#[trigger] r@[i]).id)
                    && self@.categories[r@[i].id] == r@[i],
    {
        let mut r: Vec<Category> = Vec::new();
        let mut i: usize = 0;
        while i < self.categories.len()
            invariant
                i <= self.categories.len(),
                r@ =~= self.categories@.take(i as int),
            decreases self.categories.len() - i,
        {
            r.push(self.categories[i].dup());
            proof {
                assert(self.categories@.take(i + 1 as int)
                    =~= self.categories@.take(i as int).push(self.categories@[i as int]));
            }
            i += 1;
        }
        proof {
            assert(self.categories@.take(self.categories@.len() as int) =~= self.categories@);
            assert forall|i: int| 0 <= i < r@.len() implies self@.categories.contains_key(
                (#[trigger] r@[i]).id,
            ) && self@.categories[r@[i].id] == r@[i] by {
                lemma_seq_to_map_index(r@, category_key(), i);
            }
        }
        r
    }

    /// Insert-or-replace by id: afterwards the category map carries exactly
    /// this row under `category.id`, and nothing else changes.
    pub fn create_category(&mut self, category: &Category)
        requires
            old(self).wf(),
        ensures
            final(self).wf(),
            final(self)@ == (StoreView {
                categories: old(self)@.categories.insert(category.id, *category),
                ..old(self)@
            }),
    {
        let ghost s = self.categories@;
        match self.find_category(category.id) {
            Some(i) => {
                proof {
                    lemma_seq_to_map_update(s, category_key(), i as int, *category);
                }
                self.categories.set(i, category.dup());
            },
            None => {
                proof {
                    lemma_seq_to_map_push(s, category_key(), *category);
                }
                self.categories.push(category.dup());
            },
        }
    }

    /// Same write as [`Self::create_category`]: a full-row overwrite keyed
    /// by id.
    pub fn update_category(&mut self, category: &Category)
        requires
            old(self).wf(),
        ensures
            final(self).wf(),
            final(self)@ == (StoreView {
                categories: old(self)@.categories.insert(category.id, *category),
                ..old(self)@
            }),
    {
        self.create_category(category);
    }

    /// Remove the row with this id; a missing id is a silent no-op.
    pub fn delete_category(&mut self, id: i64)
        requires
            old(self).wf(),
        ensures
            final(self).wf(),
            final(self)@ == (StoreView {
                categories: old(self)@.categories.remove(id),
                ..old(self)@
            }),
    {
        let ghost s = self.categories@;
        match self.find_category(id) {
            Some(i) => {
                proof {
                    lemma_seq_to_map_remove(s, category_key(), i as int);
                }
                self.categories.remove(i);
            },
            None => {
                proof {
                    lemma_seq_to_map_absent(s, category_key(), id);
                    lemma_map_remove_absent(categories_map(s), id);
                }
            },
        }
    }

    // ==================== Orders ====================

    fn find_order(&self, id: i64) -> (r: Option<usize>)
        ensures
            match r {
                Some(i) => i < self.orders@.len() && self.orders@[i as int].id == id,
                None => forall|j: int|
                    0 <= j < self.orders@.len() ==> (#[trigger] self.orders@[j]).id != id,
            },
    {
        let mut i: usize = 0;
        while i < self.orders.len()
            invariant
                i <= self.orders.len(),
                forall|j: int| 0 <= j < i ==> (#[trigger] self.orders@[j]).id != id,
            decreases self.orders.len() - i,
        {
            if self.orders[i].id == id {
                return Some(i);
            }
            i += 1;
        }
        None
    }

    /// Store every order with its items eagerly loaded, in storage order;
    /// ids are pairwise distinct and the rows are exactly the store's order
    /// map.
    pub fn get_orders(&self) -> (r: Vec<Order>)
        requires
            self.wf(),
        ensures
            orders_map(order_views(r@)) == self@.orders,
            unique_keys(order_views(r@), order_key()),
            forall|i: int| 0 <= i < r@.len()
                ==> self@.orders.contains_key((#[trigger] r@[i])@.id)
                    && self@.orders[r@[i]@.id] == r@[i]@,
    {
        let mut r: Vec<Order> = Vec::new();
        let mut i: usize = 0;
        while i < self.orders.len()
            invariant
                i <= self.orders.len(),
                r@.len() == i,
                forall|j: int| 0 <= j < i ==> (#[trigger] r@[j])@ == self.orders@[j]@,
            decreases self.orders.len() - i,
        {
            r.push(self.orders[i].dup());
            i += 1;
        }
        proof {
            assert(order_views(r@) =~= order_views(self.orders@));
            assert forall|i: int| 0 <= i < r@.len() implies self@.orders.contains_key(
                (#[trigger] r@[i])@.id,
            ) && self@.orders[r@[i]@.id] == r@[i]@ by {
                assert(order_views(r@)[i] == r@[i]@);
                lemma_seq_to_map_index(order_views(r@), order_key(), i);
            }
        }
        r
    }

    /// Persist the order and its items as one unit, insert-or-replace by
    /// id: afterwards the order map carries exactly this order — with an
    /// item set equal to the items supplied, any previous items gone — and
    /// nothing else changes.
    pub fn create_order(&mut self, order: &Order)
        requires
            old(self).wf(),
        ensures
            final(self).wf(),
            final(self)@ == (StoreView {
                orders: old(self)@.orders.insert(order.id, order@),
                ..old(self)@
            }),
    {
        let ghost s = self.orders@;
        match self.find_order(order.id) {
            Some(i) => {
                proof {
                    lemma_seq_to_map_update(order_views(s), order_key(), i as int, order@);
                }
                self.orders.set(i, order.dup());
                proof {
                    assert(order_views(self.orders@) =~= order_views(s).update(i as int, order@));
                }
            },
            None => {
                proof {
                    lemma_seq_to_map_push(order_views(s), order_key(), order@);
                }
                self.orders.push(order.dup());
                proof {
                    assert(order_views(self.orders@) =~= order_views(s).push(order@));
                }
            },
        }
    }

    /// Same write as [`Self::create_order`]: the order row is overwritten
    /// and its stored item set is replaced, as a unit, by the items
    /// supplied — never merged or patched.
    pub fn update_order(&mut self, order: &Order)
        requires
            old(self).wf(),
        ensures
            final(self).wf(),
            final(self)@ == (StoreView {
                orders: old(self)@.orders.insert(order.id, order@),
                ..old(self)@
            }),
    {
        self.create_order(order);
    }

    /// Remove the order and, with it, every one of its items (they have no
    /// life outside their order); a missing id is a silent no-op.
    pub fn delete_order(&mut self, id: i64)
        requires
            old(self).wf(),
        ensures
            final(self).wf(),
            final(self)@ == (StoreView { orders: old(self)@.orders.remove(id), ..old(self)@ }),
    {
        let ghost s = self.orders@;
        match self.find_order(id) {
            Some(i) => {
                proof {
                    lemma_seq_to_map_remove(order_views(s), order_key(), i as int);
                }
                self.orders.remove(i);
                proof {
                    assert(order_views(self.orders@) =~= order_views(s).remove(i as int));
                }
            },
            None => {
                proof {
                    assert(forall|j: int|
                        0 <= j < order_views(s).len()
                            ==> order_key()(#[trigger] order_views(s)[j]) != id);
                    lemma_seq_to_map_absent(order_views(s), order_key(), id);
                    lemma_map_remove_absent(orders_map(order_views(s)), id);
                }
            },
        }
    }

    // ==================== Users ====================

    fn find_user(&self, id: i64) -> (r: Option<usize>)
        ensures
            match r {
                Some(i) => i < self.users@.len() && self.users@[i as int].id == id,
                None => forall|j: int|
                    0 <= j < self.users@.len() ==> (#[trigger] self.users@[j]).id != id,
            },
    {
        let mut i: usize = 0;
        while i < self.users.len()
            invariant
                i <= self.users.len(),
                forall|j: int| 0 <= j < i ==> (#[trigger] self.users@[j]).id != id,
            decreases self.users.len() - i,
        {
            if self.users[i].id == id {
                return Some(i);
            }
            i += 1;
        }
        None
    }

    /// Store every row, in storage order; ids are pairwise distinct and the
    /// rows are exactly the store's user map.
    pub fn get_users(&self) -> (r: Vec<User>)
        requires
            self.wf(),
        ensures
            users_map(user_views(r@)) == self@.users,
            unique_keys(user_views(r@), user_key()),
            forall|i: int| 0 <= i < r@.len()
                ==> self@.users.contains_key((#[trigger] r@[i])@.id)
                    && self@.users[r@[i]@.id] == r@[i]@,
    {
        let mut r: Vec<User> = Vec::new();
        let mut i: usize = 0;
        while i < self.users.len()
            invariant
                i <= self.users.len(),
                r@.len() == i,
                forall|j: int| 0 <= j < i ==> (#[trigger] r@[j])@ == self.users@[j]@,
            decreases self.users.len() - i,
        {
            r.push(self.users[i].dup());
            i += 1;
        }
        proof {
            assert(user_views(r@) =~= user_views(self.users@));
            assert forall|i: int| 0 <= i < r@.len() implies self@.users.contains_key(
                (#[trigger] r@[i])@.id,
            ) && self@.users[r@[i]@.id] == r@[i]@ by {
                assert(user_views(r@)[i] == r@[i]@);
                lemma_seq_to_map_index(user_views(r@), user_key(), i);
            }
        }
        r
    }

    /// Insert-or-replace by id: afterwards the user map carries exactly
    /// this row under `user.id`, and nothing else changes.
    pub fn create_user(&mut self, user: &User)
        requires
            old(self).wf(),
        ensures
            final(self).wf(),
            final(self)@ == (StoreView {
                users: old(self)@.users.insert(user.id, user@),
                ..old(self)@
            }),
    {
        let ghost s = self.users@;
        match self.find_user(user.id) {
            Some(i) => {
                proof {
                    lemma_seq_to_map_update(user_views(s), user_key(), i as int, user@);
                }
                self.users.set(i, user.dup());
                proof {
                    assert(user_views(self.users@) =~= user_views(s).update(i as int, user@));
                }
            },
            None => {
                proof {
                    lemma_seq_to_map_push(user_views(s), user_key(), user@);
                }
                self.users.push(user.dup());
                proof {
                    assert(user_views(self.users@) =~= user_views(s).push(user@));
                }
            },
        }
    }

    /// Same write as [`Self::create_user`]: a full-row overwrite keyed by
    /// id.
    pub fn update_user(&mut self, user: &User)
        requires
            old(self).wf(),
        ensures
            final(self).wf(),
            final(self)@ == (StoreView {
                users: old(self)@.users.insert(user.id, user@),
                ..old(self)@
            }),
    {
        self.create_user(user);
    }

    /// Remove the row with this id; a missing id is a silent no-op.
    pub fn delete_user(&mut self, id: i64)
        requires
            old(self).wf(),
        ensures
            final(self).wf(),
            final(self)@ == (StoreView { users: old(self)@.users.remove(id), ..old(self)@ }),
    {
        let ghost s = self.users@;
        match self.find_user(id) {
            Some(i) => {
                proof {
                    lemma_seq_to_map_remove(user_views(s), user_key(), i as int);
                }
                self.users.remove(i);
                proof {
                    assert(user_views(self.users@) =~= user_views(s).remove(i as int));
                }
            },
            None => {
                proof {
                    assert(forall|j: int|
                        0 <= j < user_views(s).len()
                            ==> user_key()(#[trigger] user_views(s)[j]) != id);
                    lemma_seq_to_map_absent(user_views(s), user_key(), id);
                    lemma_map_remove_absent(users_map(user_views(s)), id);
                }
            },
        }
    }

    // ==================== Tables ====================

    fn find_table(&self, id: i64) -> (r: Option<usize>)
        ensures
            match r {
                Some(i) => i < self.tables@.len() && self.tables@[i as int].id == id,
                None => forall|j: int|
                    0 <= j < self.tables@.len() ==> (#[trigger] self.tables@[j]).id != id,
            },
    {
        let mut i: usize = 0;
        while i < self.tables.len()
            invariant
                i <= self.tables.len(),
                forall|j: int| 0 <= j < i ==> (#[trigger] self.tables@[j]).id != id,
            decreases self.tables.len() - i,
        {
            if self.tables[i].id == id {
                return Some(i);
            }
            i += 1;
        }
        None
    }

    /// Store every row, in storage order; ids are pairwise distinct and the
    /// rows are exactly the store's table map.
    pub fn get_tables(&self) -> (r: Vec<Table>)
        requires
            self.wf(),
        ensures
            tables_map(r@) == self@.tables,
            unique_keys(r@, table_key()),
            forall|i: int| 0 <= i < r@.len()
                ==> self@.tables.contains_key((#[trigger] r@[i]).id)
                    && self@.tables[r@[i].id] == r@[i],
    {
        let mut r: Vec<Table> = Vec::new();
        let mut i: usize = 0;
        while i < self.tables.len()
            invariant
                i <= self.tables.len(),
                r@ =~= self.tables@.take(i as int),
            decreases self.tables.len() - i,
        {
            r.push(self.tables[i].dup());
            proof {
                assert(self.tables@.take(i + 1 as int)
                    =~= self.tables@.take(i as int).push(self.tables@[i as int]));
            }
            i += 1;
        }
        proof {
            assert(self.tables@.take(self.tables@.len() as int) =~= self.tables@);
            assert forall|i: int| 0 <= i < r@.len() implies self@.tables.contains_key(
                (#[trigger] r@[i]).id,
            ) && self@.tables[r@[i].id] == r@[i] by {
                lemma_seq_to_map_index(r@, table_key(), i);
            }
        }
        r
    }

    /// Insert-or-replace by id: afterwards the table map carries exactly
    /// this row under `table.id`, and nothing else changes.
    pub fn create_table(&mut self, table: &Table)
        requires
            old(self).wf(),
        ensures
            final(self).wf(),
            final(self)@ == (StoreView {
                tables: old(self)@.tables.insert(table.id, *table),
                ..old(self)@
            }),
    {
        let ghost s = self.tables@;
        match self.find_table(table.id) {
            Some(i) => {
                proof {
                    lemma_seq_to_map_update(s, table_key(), i as int, *table);
                }
                self.tables.set(i, table.dup());
            },
            None => {
                proof {
                    lemma_seq_to_map_push(s, table_key(), *table);
                }
                self.tables.push(table.dup());
            },
        }
    }

    /// Same write as [`Self::create_table`]: a full-row overwrite keyed by
    /// id.
    pub fn update_table(&mut self, table: &Table)
        requires
            old(self).wf(),
        ensures
            final(self).wf(),
            final(self)@ == (StoreView {
                tables: old(self)@.tables.insert(table.id, *table),
                ..old(self)@
            }),
    {
        self.create_table(table);
    }

    /// Remove the row with this id; a missing id is a silent no-op.
    pub fn delete_table(&mut self, id: i64)
        requires
            old(self).wf(),
        ensures
            final(self).wf(),
            final(self)@ == (StoreView {
                tables: old(self)@.tables.remove(id),
                ..old(self)@
            }),
    {
        let ghost s = self.tables@;
        match self.find_table(id) {
            Some(i) => {
                proof {
                    lemma_seq_to_map_remove(s, table_key(), i as int);
                }
                self.tables.remove(i);
            },
            None => {
                proof {
                    lemma_seq_to_map_absent(s, table_key(), id);
                    lemma_map_remove_absent(tables_map(s), id);
                }
            },
        }
    }
    // ==================== License record ====================

    /// Replace the stored license record wholesale.
    pub fn save_license(&mut self, license: &LicenseKey)
        requires
            old(self).wf(),
        ensures
            final(self).wf(),
            final(self)@ == (StoreView { license: Some(*license), ..old(self)@ }),
    {
        self.license = Some(license.dup());
    }

    /// The stored license record, if any.
    pub fn get_active_license(&self) -> (r: Option<LicenseKey>)
        ensures
            r == self@.license,
    {
        match &self.license {
            Some(l) => Some(l.dup()),
            None => None,
        }
    }

    /// Delete the stored license record unconditionally.
    pub fn clear_license(&mut self)
        requires
            old(self).wf(),
        ensures
            final(self).wf(),
            final(self)@ == (StoreView { license: None, ..old(self)@ }),
    {
        self.license = None;
    }

    // ==================== Bulk transfer ====================

    /// Snapshot the whole store: each collection of the snapshot holds
    /// exactly the rows of the corresponding map, with pairwise-distinct
    /// ids.
    pub fn export_data(&self) -> (ed: ExportData)
        requires
            self.wf(),
        ensures
            products_map(ed.products@) == self@.products,
            categories_map(ed.categories@) == self@.categories,
            orders_map(order_views(ed.orders@)) == self@.orders,
            tables_map(ed.tables@) == self@.tables,
            users_map(user_views(ed.users@)) == self@.users,
            unique_keys(ed.products@, product_key()),
            unique_keys(ed.categories@, category_key()),
            unique_keys(order_views(ed.orders@), order_key()),
            unique_keys(ed.tables@, table_key()),
            unique_keys(user_views(ed.users@), user_key()),
    {
        ExportData {
            products: self.get_products(),
            categories: self.get_categories(),
            orders: self.get_orders(),
            tables: self.get_tables(),
            users: self.get_users(),
        }
    }

    /// Restore a snapshot by upserting row after row: products, then
    /// categories, then orders, then — when present — tables and users.
    /// See [`import_applied`] for the resulting content; the snapshot wins
    /// on every id it carries, rows it does not carry stay.
    pub fn import_data(&mut self, data: &ImportData)
        requires
            old(self).wf(),
        ensures
            final(self).wf(),
            final(self)@ == import_applied(old(self)@, *data),
    {
        broadcast use vstd::map_lib::lemma_union_insert_right;

        let ghost v0 = old(self)@;
        proof {
            assert(data.products@.take(0) =~= Seq::<Product>::empty());
            assert(v0.products.union_prefer_right(products_map(data.products@.take(0)))
                =~= v0.products);
        }
        let mut i: usize = 0;
        while i < data.products.len()
            invariant
                old(self).wf(),
                i <= data.products.len(),
                self.wf(),
                self@ == (StoreView {
                    products: v0.products.union_prefer_right(
                        products_map(data.products@.take(i as int)),
                    ),
                    ..v0
                }),
            decreases data.products.len() - i,
        {
            proof {
                assert(data.products@.take(i + 1 as int)
                    =~= data.products@.take(i as int).push(data.products@[i as int]));
                lemma_seq_to_map_push_any(
                    data.products@.take(i as int),
                    product_key(),
                    data.products@[i as int],
                );
            }
            self.create_product(&data.products[i]);
            i += 1;
        }
        proof {
            assert(data.products@.take(data.products@.len() as int) =~= data.products@);
        }
        let ghost v1 = self@;
        proof {
            assert(data.categories@.take(0) =~= Seq::<Category>::empty());
            assert(v1.categories.union_prefer_right(categories_map(data.categories@.take(0)))
                =~= v1.categories);
        }
        let mut i: usize = 0;
        while i < data.categories.len()
            invariant
                old(self).wf(),
                i <= data.categories.len(),
                self.wf(),
                self@ == (StoreView {
                    categories: v1.categories.union_prefer_right(
                        categories_map(data.categories@.take(i as int)),
                    ),
                    ..v1
                }),
            decreases data.categories.len() - i,
        {
            proof {
                assert(data.categories@.take(i + 1 as int)
                    =~= data.categories@.take(i as int).push(data.categories@[i as int]));
                lemma_seq_to_map_push_any(
                    data.categories@.take(i as int),
                    category_key(),
                    data.categories@[i as int],
                );
            }
            self.create_category(&data.categories[i]);
            i += 1;
        }
        proof {
            assert(data.categories@.take(data.categories@.len() as int) =~= data.categories@);
        }
        let ghost v2 = self@;
        proof {
            assert(order_views(data.orders@.take(0)) =~= Seq::<OrderV>::empty());
            assert(v2.orders.union_prefer_right(orders_map(order_views(data.orders@.take(0))))
                =~= v2.orders);
        }
        let mut i: usize = 0;
        while i < data.orders.len()
            invariant
                old(self).wf(),
                i <= data.orders.len(),
                self.wf(),
                self@ == (StoreView {
                    orders: v2.orders.union_prefer_right(
                        orders_map(order_views(data.orders@.take(i as int))),
                    ),
                    ..v2
                }),
            decreases data.orders.len() - i,
        {
            proof {
                assert(order_views(data.orders@.take(i + 1 as int))
                    =~= order_views(data.orders@.take(i as int)).push(data.orders@[i as int]@));
                lemma_seq_to_map_push_any(
                    order_views(data.orders@.take(i as int)),
                    order_key(),
                    data.orders@[i as int]@,
                );
            }
            self.create_order(&data.orders[i]);
            i += 1;
        }
        proof {
            assert(order_views(data.orders@.take(data.orders@.len() as int))
                =~= order_views(data.orders@));
        }
        let ghost v3 = self@;
        if let Some(tables) = &data.tables {
            proof {
                assert(tables@.take(0) =~= Seq::<Table>::empty());
                assert(v3.tables.union_prefer_right(tables_map(tables@.take(0))) =~= v3.tables);
            }
            let mut i: usize = 0;
            while i < tables.len()
                invariant
                    old(self).wf(),
                    i <= tables.len(),
                    self.wf(),
                    self@ == (StoreView {
                        tables: v3.tables.union_prefer_right(tables_map(tables@.take(i as int))),
                        ..v3
                    }),
                decreases tables.len() - i,
            {
                proof {
                    assert(tables@.take(i + 1 as int)
                        =~= tables@.take(i as int).push(tables@[i as int]));
                    lemma_seq_to_map_push_any(tables@.take(i as int), table_key(), tables@[i as int]);
                }
                self.create_table(&tables[i]);
                i += 1;
            }
            proof {
                assert(tables@.take(tables@.len() as int) =~= tables@);
            }
        }
        let ghost v4 = self@;
        if let Some(users) = &data.users {
            proof {
                assert(user_views(users@.take(0)) =~= Seq::<UserV>::empty());
                assert(v4.users.union_prefer_right(users_map(user_views(users@.take(0))))
                    =~= v4.users);
            }
            let mut i: usize = 0;
            while i < users.len()
                invariant
                    old(self).wf(),
                    i <= users.len(),
                    self.wf(),
                    self@ == (StoreView {
                        users: v4.users.union_prefer_right(
                            users_map(user_views(users@.take(i as int))),
                        ),
                        ..v4
                    }),
                decreases users.len() - i,
            {
                proof {
                    assert(user_views(users@.take(i + 1 as int))
                        =~= user_views(users@.take(i as int)).push(users@[i as int]@));
                    lemma_seq_to_map_push_any(
                        user_views(users@.take(i as int)),
                        user_key(),
                        users@[i as int]@,
                    );
                }
                self.create_user(&users[i]);
                i += 1;
            }
            proof {
                assert(user_views(users@.take(users@.len() as int)) =~= user_views(users@));
            }
        }
        proof {
            assert(self@ =~= import_applied(v0, *data));
        }
    }

    /// Wipe every data relation — items with their orders, then all other
    /// rows — leaving an empty store; the license record is kept.
    pub fn clear_all_data(&mut self)
        requires
            old(self).wf(),
        ensures
            final(self).wf(),
            final(self)@ == cleared(old(self)@),
    {
        self.orders.clear();
        self.products.clear();
        self.categories.clear();
        self.tables.clear();
        self.users.clear();
        proof {
            assert(order_views(self.orders@) =~= Seq::<OrderV>::empty());
            assert(user_views(self.users@) =~= Seq::<UserV>::empty());
            assert(self@ =~= cleared(old(self)@));
        }
    }
}

// ==================== Store laws ====================

/// Upserting twice under one id stores exactly the second row: the second
/// write fully overwrites the first, no field is merged, and the map holds
/// the second row under that id.
pub proof fn lemma_upsert_overwrites<V>(m: Map<i64, V>, id: i64, e1: V, e2: V)
    ensures
        m.insert(id, e1).insert(id, e2) == m.insert(id, e2),
        m.insert(id, e2).contains_key(id),
        m.insert(id, e2)[id] == e2,
{
    assert(m.insert(id, e1).insert(id, e2) =~= m.insert(id, e2));
}

/// After an order write, the stored order carries exactly the items that
/// were supplied with it: reading the order back yields that same item
/// sequence.
pub proof fn lemma_order_items_replaced(m: Map<i64, OrderV>, o: Order)
    ensures
        m.insert(o.id, o@).contains_key(o.id),
        m.insert(o.id, o@)[o.id].items == o.items@,
{
}

/// Round trip: exporting a store, wiping it, and importing the export
/// restores the content of every data relation (tables and users restore
/// because an export always carries them).
pub proof fn lemma_export_clear_import_round_trip(v: StoreView, data: ImportData)
    requires
        products_map(data.products@) == v.products,
        categories_map(data.categories@) == v.categories,
        orders_map(order_views(data.orders@)) == v.orders,
        data.tables is Some,
        tables_map(data.tables.unwrap()@) == v.tables,
        data.users is Some,
        users_map(user_views(data.users.unwrap()@)) == v.users,
    ensures
        import_applied(cleared(v), data) == v,
{
    assert(Map::<i64, Product>::empty().union_prefer_right(v.products) =~= v.products);
    assert(Map::<i64, Category>::empty().union_prefer_right(v.categories) =~= v.categories);
    assert(Map::<i64, OrderV>::empty().union_prefer_right(v.orders) =~= v.orders);
    assert(Map::<i64, Table>::empty().union_prefer_right(v.tables) =~= v.tables);
    assert(Map::<i64, UserV>::empty().union_prefer_right(v.users) =~= v.users);
    assert(import_applied(cleared(v), data) =~= v);
}

/// Importing a snapshot twice ends in the same content as importing it
/// once: on every id the snapshot carries, the second pass rewrites the row
/// the first pass already wrote.
pub proof fn lemma_import_idempotent(v: StoreView, data: ImportData)
    ensures
        import_applied(import_applied(v, data), data) == import_applied(v, data),
{
    let v1 = import_applied(v, data);
    assert(v1.products.union_prefer_right(products_map(data.products@)) =~= v1.products);
    assert(v1.categories.union_prefer_right(categories_map(data.categories@)) =~= v1.categories);
    assert(v1.orders.union_prefer_right(orders_map(order_views(data.orders@))) =~= v1.orders);
    if let Some(ts) = data.tables {
        assert(v1.tables.union_prefer_right(tables_map(ts@)) =~= v1.tables);
    }
    if let Some(us) = data.users {
        assert(v1.users.union_prefer_right(users_map(user_views(us@))) =~= v1.users);
    }
    assert(import_applied(v1, data) =~= v1);
}

} // verus!
