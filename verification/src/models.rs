//! Entity shapes held by the store.
//!
//! All monetary fields (`price`, `total`, `change`, `total_paid`) are kept in
//! minor currency units (e.g. cents), so every amount is an exact 64-bit
//! integer.  Every entity is addressed by a 64-bit `id`; an order owns its
//! line items outright, and a user's pinned product ids are an optional
//! embedded list.

use vstd::prelude::*;

use crate::kv::seq_to_map;

verus! {

#[derive(Debug, Clone, PartialEq)]
pub struct Product {
    pub id: i64,
    pub name: String,
    /// Price in minor currency units.
    pub price: i64,
    /// Denormalized free-text label, not a reference to a `Category` row.
    pub category: String,
    pub brand: Option<String>,
    pub icon_type: Option<String>,
    pub selected_icon: Option<String>,
    pub uploaded_image: Option<String>,
    pub stock: Option<i32>,
}

#[derive(Debug, Clone, PartialEq)]
pub struct Category {
    pub id: i64,
    pub name: String,
    pub description: Option<String>,
    pub icon: Option<String>,
}

/// A line of an order: a snapshot of the product at the time of sale.
/// `id` is the id of the product the line was taken from; later edits to
/// that product do not reach back into stored orders.
#[derive(Debug, Clone, PartialEq)]
pub struct OrderItem {
    pub id: i64,
    pub name: String,
    /// Price in minor currency units.
    pub price: i64,
    pub quantity: i32,
    pub category: Option<String>,
}

#[derive(Debug, Clone, PartialEq)]
pub struct Order {
    pub id: i64,
    pub date: String,
    /// Amounts in minor currency units.
    pub total: i64,
    pub change: i64,
    pub total_paid: i64,
    pub item_count: i32,
    pub table_number: i32,
    pub payment_method: String,
    pub ticket_path: Option<String>,
    pub status: String,
    /// Wholly owned by this order; replaced as a unit on every write.
    pub items: Vec<OrderItem>,
}

#[derive(Debug, Clone, PartialEq)]
pub struct Table {
    pub id: i64,
    pub name: String,
    pub available: bool,
    /// Soft reference: may name an order that no longer exists.
    pub current_order_id: Option<i64>,
}

#[derive(Debug, Clone, PartialEq)]
pub struct User {
    pub id: i64,
    pub name: String,
    pub profile_picture: Option<String>,
    pub pin: String,
    pub pinned_product_ids: Option<Vec<i64>>,
}

/// The mathematical value of an [`Order`]: its scalar fields together with
/// the sequence of its items.
#[verifier::ext_equal]
pub struct OrderV {
    pub id: i64,
    pub date: String,
    pub total: i64,
    pub change: i64,
    pub total_paid: i64,
    pub item_count: i32,
    pub table_number: i32,
    pub payment_method: String,
    pub ticket_path: Option<String>,
    pub status: String,
    pub items: Seq<OrderItem>,
}

impl View for Order {
    type V = OrderV;

    open spec fn view(&self) -> OrderV {
        OrderV {
            id: self.id,
            date: self.date,
            total: self.total,
            change: self.change,
            total_paid: self.total_paid,
            item_count: self.item_count,
            table_number: self.table_number,
            payment_method: self.payment_method,
            ticket_path: self.ticket_path,
            status: self.status,
            items: self.items@,
        }
    }
}

/// The mathematical value of a [`User`]: its scalar fields together with
/// the sequence of pinned product ids, if any.
#[verifier::ext_equal]
pub struct UserV {
    pub id: i64,
    pub name: String,
    pub profile_picture: Option<String>,
    pub pin: String,
    pub pinned_product_ids: Option<Seq<i64>>,
}

impl View for User {
    type V = UserV;

    open spec fn view(&self) -> UserV {
        UserV {
            id: self.id,
            name: self.name,
            profile_picture: self.profile_picture,
            pin: self.pin,
            pinned_product_ids: match self.pinned_product_ids {
                Some(v) => Some(v@),
                None => None,
            },
        }
    }
}

// ==================== keys and maps ====================

pub open spec fn product_key() -> spec_fn(Product) -> i64 {
    |p: Product| p.id
}

pub open spec fn category_key() -> spec_fn(Category) -> i64 {
    |c: Category| c.id
}

pub open spec fn order_key() -> spec_fn(OrderV) -> i64 {
    |o: OrderV| o.id
}

pub open spec fn table_key() -> spec_fn(Table) -> i64 {
    |t: Table| t.id
}

pub open spec fn user_key() -> spec_fn(UserV) -> i64 {
    |u: UserV| u.id
}

pub open spec fn products_map(s: Seq<Product>) -> Map<i64, Product> {
    seq_to_map(s, product_key())
}

pub open spec fn categories_map(s: Seq<Category>) -> Map<i64, Category> {
    seq_to_map(s, category_key())
}

pub open spec fn orders_map(s: Seq<OrderV>) -> Map<i64, OrderV> {
    seq_to_map(s, order_key())
}

pub open spec fn tables_map(s: Seq<Table>) -> Map<i64, Table> {
    seq_to_map(s, table_key())
}

pub open spec fn users_map(s: Seq<UserV>) -> Map<i64, UserV> {
    seq_to_map(s, user_key())
}

/// The values of a sequence of orders.
pub open spec fn order_views(s: Seq<Order>) -> Seq<OrderV> {
    s.map_values(|o: Order| o@)
}

/// The values of a sequence of users.
pub open spec fn user_views(s: Seq<User>) -> Seq<UserV> {
    s.map_values(|u: User| u@)
}

// ==================== duplication ====================

/// A fresh copy of an optional string, equal to the original.
pub fn dup_opt_string(o: &Option<String>) -> (r: Option<String>)
    ensures
        r == *o,
{
    match o {
        Some(s) => Some(s.clone()),
        None => None,
    }
}

/// A fresh copy of a vector of ids, with the same contents.
pub fn dup_ids(v: &Vec<i64>) -> (r: Vec<i64>)
    ensures
        r@ == v@,
{
    let mut r: Vec<i64> = Vec::new();
    let mut i: usize = 0;
    while i < v.len()
        invariant
            i <= v.len(),
            r@ =~= v@.take(i as int),
        decreases v.len() - i,
    {
        r.push(v[i]);
        proof {
            assert(v@.take(i + 1 as int) =~= v@.take(i as int).push(v@[i as int]));
        }
        i += 1;
    }
    proof {
        assert(v@.take(v@.len() as int) =~= v@);
    }
    r
}

impl Product {
    pub fn dup(&self) -> (r: Self)
        ensures
            r == *self,
    {
        Product {
            id: self.id,
            name: self.name.clone(),
            price: self.price,
            category: self.category.clone(),
            brand: dup_opt_string(&self.brand),
            icon_type: dup_opt_string(&self.icon_type),
            selected_icon: dup_opt_string(&self.selected_icon),
            uploaded_image: dup_opt_string(&self.uploaded_image),
            stock: self.stock,
        }
    }
}

impl Category {
    pub fn dup(&self) -> (r: Self)
        ensures
            r == *self,
    {
        Category {
            id: self.id,
            name: self.name.clone(),
            description: dup_opt_string(&self.description),
            icon: dup_opt_string(&self.icon),
        }
    }
}

impl OrderItem {
    pub fn dup(&self) -> (r: Self)
        ensures
            r == *self,
    {
        OrderItem {
            id: self.id,
            name: self.name.clone(),
            price: self.price,
            quantity: self.quantity,
            category: dup_opt_string(&self.category),
        }
    }
}

impl Order {
    pub fn dup(&self) -> (r: Self)
        ensures
            r@ == self@,
    {
        let mut items: Vec<OrderItem> = Vec::new();
        let mut i: usize = 0;
        while i < self.items.len()
            invariant
                i <= self.items.len(),
                items@ =~= self.items@.take(i as int),
            decreases self.items.len() - i,
        {
            items.push(self.items[i].dup());
            proof {
                assert(self.items@.take(i + 1 as int)
                    =~= self.items@.take(i as int).push(self.items@[i as int]));
            }
            i += 1;
        }
        proof {
            assert(self.items@.take(self.items@.len() as int) =~= self.items@);
        }
        Order {
            id: self.id,
            date: self.date.clone(),
            total: self.total,
            change: self.change,
            total_paid: self.total_paid,
            item_count: self.item_count,
            table_number: self.table_number,
            payment_method: self.payment_method.clone(),
            ticket_path: dup_opt_string(&self.ticket_path),
            status: self.status.clone(),
            items,
        }
    }
}

impl Table {
    pub fn dup(&self) -> (r: Self)
        ensures
            r == *self,
    {
        Table {
            id: self.id,
            name: self.name.clone(),
            available: self.available,
            current_order_id: self.current_order_id,
        }
    }
}

impl User {
    pub fn dup(&self) -> (r: Self)
        ensures
            r@ == self@,
    {
        User {
            id: self.id,
            name: self.name.clone(),
            profile_picture: dup_opt_string(&self.profile_picture),
            pin: self.pin.clone(),
            pinned_product_ids: match &self.pinned_product_ids {
                Some(v) => Some(dup_ids(v)),
                None => None,
            },
        }
    }
}

// ==================== snapshots ====================

/// A full-store snapshot: one collection per entity type.
#[derive(Debug, Clone, PartialEq)]
pub struct ExportData {
    pub products: Vec<Product>,
    pub categories: Vec<Category>,
    pub orders: Vec<Order>,
    pub tables: Vec<Table>,
    pub users: Vec<User>,
}

/// A snapshot to restore.  Older snapshot formats lack tables and users, so
/// those collections are optional and skipped when absent.
#[derive(Debug, Clone, PartialEq)]
pub struct ImportData {
    pub products: Vec<Product>,
    pub categories: Vec<Category>,
    pub orders: Vec<Order>,
    pub tables: Option<Vec<Table>>,
    pub users: Option<Vec<User>>,
}

impl ExportData {
    /// Repackage an export for re-import, with every collection present.
    pub fn into_import_data(self) -> (d: ImportData)
        ensures
            d.products == self.products,
            d.categories == self.categories,
            d.orders == self.orders,
            d.tables == Some(self.tables),
            d.users == Some(self.users),
    {
        ImportData {
            products: self.products,
            categories: self.categories,
            orders: self.orders,
            tables: Some(self.tables),
            users: Some(self.users),
        }
    }
}

} // verus!
