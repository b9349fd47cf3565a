//! Where the historical bars are stored, and how a query for them is put.
//! The store itself is reached by the caller; this module settles the
//! connection settings and what a query asks for.

use vstd::prelude::*;

verus! {

/// Sort direction of a query, as the store writes it.
pub const ASCENDING: i32 = 1;

pub const DESCENDING: i32 = -1;

/// The connection settings of the bar store.
#[derive(Debug)]
pub struct ClientMongo {
    url: String,
    db_name: String,
}

/// The mathematical view of [`ClientMongo`].
pub struct ClientMongoView {
    pub url: Seq<char>,
    pub db_name: Seq<char>,
}

impl View for ClientMongo {
    type V = ClientMongoView;

    closed spec fn view(&self) -> ClientMongoView {
        ClientMongoView { url: self.url@, db_name: self.db_name@ }
    }
}

impl Clone for ClientMongo {
    fn clone(&self) -> (r: Self)
        ensures
            r@ == self@,
    {
        ClientMongo { url: self.url.clone(), db_name: self.db_name.clone() }
    }
}

/// What a query asks of a collection: how many records at most (zero for no
/// limit), sorted by which field, in which direction.
#[derive(Debug)]
pub struct FindPlan {
    pub limit: i64,
    pub sort_col: String,
    pub sort_order: i32,
}

/// The mathematical view of [`FindPlan`].
pub struct FindPlanView {
    pub limit: int,
    pub sort_col: Seq<char>,
    pub sort_order: int,
}

impl View for FindPlan {
    type V = FindPlanView;

    open spec fn view(&self) -> FindPlanView {
        FindPlanView {
            limit: self.limit as int,
            sort_col: self.sort_col@,
            sort_order: self.sort_order as int,
        }
    }
}

/// The text given, or the default where none is given.
pub open spec fn text_or(given: Option<Seq<char>>, default: Seq<char>) -> Seq<char> {
    match given {
        Some(t) => t,
        None => default,
    }
}

impl ClientMongo {
    /// Settings with the given address and database name; the local server
    /// and the database `stocksdb` where none is given.
    pub fn new(url: Option<String>, db_name: Option<String>) -> (r: Self)
        ensures
            r@.url == text_or(url.deep_view(), "mongodb://localhost:27017/"@),
            r@.db_name == text_or(db_name.deep_view(), "stocksdb"@),
    {
        let url = match url {
            Some(u) => u,
            None => "mongodb://localhost:27017/".to_owned(),
        };
        let db_name = match db_name {
            Some(d) => d,
            None => "stocksdb".to_owned(),
        };
        ClientMongo { url, db_name }
    }

    /// Settings for the given database on the local server.
    pub fn with_db_name(db_name: String) -> (r: Self)
        ensures
            r@.url == "mongodb://localhost:27017/"@,
            r@.db_name == db_name@,
    {
        Self::new(None, Some(db_name))
    }

    /// The address of the server.
    pub fn url(&self) -> (r: &str)
        ensures
            r@ == self@.url,
    {
        self.url.as_str()
    }

    /// The name of the database.
    pub fn db_name(&self) -> (r: &str)
        ensures
            r@ == self@.db_name,
    {
        self.db_name.as_str()
    }

    /// Settles what a query asks for: no limit, sorted by `_id`, smallest
    /// first, each unless stated otherwise.
    pub fn find_plan(limit: Option<i64>, sort_col: Option<&str>, small_first: Option<bool>) -> (r:
        FindPlan)
        ensures
            r@.limit == match limit {
                Some(n) => n as int,
                None => 0,
            },
            r@.sort_col == match sort_col {
                Some(c) => c@,
                None => "_id"@,
            },
            r@.sort_order == if small_first == Some(false) {
                DESCENDING as int
            } else {
                ASCENDING as int
            },
    {
        let limit = match limit {
            Some(n) => n,
            None => 0,
        };
        let sort_col = match sort_col {
            Some(c) => c.to_owned(),
            None => "_id".to_owned(),
        };
        let ascending = match small_first {
            Some(b) => b,
            None => true,
        };
        FindPlan {
            limit,
            sort_col,
            sort_order: if ascending {
                ASCENDING
            } else {
                DESCENDING
            },
        }
    }
}

} // verus!
