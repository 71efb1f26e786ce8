use vstd::prelude::*;

use crate::idset::{views, IdSet};
use crate::registry::{map_after_delete, map_after_insert, RoleRegistry};

verus! {

/// Relies on chrono's `Utc::now` and `DateTime::timestamp`: the current time in whole
/// seconds since the Unix epoch. Nothing is promised of the value. `Utc::now` panics
/// only when the system clock reads a time before the epoch.
#[verifier::external_body]
fn now_timestamp() -> (r: i64) {
    chrono::Utc::now().timestamp()
}

/// A label registry together with every identifier it was loaded with and when.
#[derive(Debug, Clone)]
pub struct SetRegistry {
    /// Each label to the identifiers that hold it.
    pub data: RoleRegistry,
    /// Every identifier seen by the loader.
    pub ids: IdSet,
    /// When the registry was built, in seconds since the Unix epoch.
    pub etl_timestamp: i64,
}

impl SetRegistry {
    pub open spec fn wf(&self) -> bool {
        self.data.wf() && self.ids.wf()
    }

    /// An empty registry, stamped with the current time.
    pub fn new() -> (r: SetRegistry)
        ensures
            r.wf(),
            r.data@ == Map::<Seq<char>, Set<Seq<char>>>::empty(),
            r.ids@ == Set::<Seq<char>>::empty(),
    {
        SetRegistry { data: RoleRegistry::new(), ids: IdSet::new(), etl_timestamp: now_timestamp() }
    }

    /// Records that `v` holds label `k`.
    pub fn insert(&mut self, k: String, v: String)
        requires
            old(self).wf(),
        ensures
            final(self).wf(),
            final(self).data@ == map_after_insert(old(self).data@, k@, v@),
            final(self).ids == old(self).ids,
            final(self).etl_timestamp == old(self).etl_timestamp,
    {
        self.data.insert(k, v);
    }

    /// Takes `v` from under label `k`; a label left with no identifier is removed.
    pub fn delete(&mut self, k: &String, v: &String)
        requires
            old(self).wf(),
        ensures
            final(self).wf(),
            final(self).data@ == map_after_delete(old(self).data@, k@, v@),
            final(self).ids == old(self).ids,
            final(self).etl_timestamp == old(self).etl_timestamp,
    {
        self.data.delete(k, v);
    }
}

/// A recorded permission.
#[derive(Debug, Clone)]
pub struct Permission {}

/// The asset and user registries, with the permissions that commands may grant.
#[derive(Debug, Clone)]
pub struct Database {
    pub asset_registry: SetRegistry,
    pub user_registry: SetRegistry,
    pub valid_permissions: Vec<String>,
    /// Permissions in effect, by key.
    pub permission_log: Vec<(String, Permission)>,
}

/// Figures that describe a database.
#[derive(Debug, Clone)]
pub struct StatusReport {
    pub asset_count: usize,
    pub user_count: usize,
    pub valid_permissions: Vec<String>,
    /// Assets times users times permissions; `None` where the product does not fit.
    pub max_combinations: Option<usize>,
    pub permissions_in_effect: usize,
}

/// An equal vector of strings.
pub fn copy_strings(v: &Vec<String>) -> (r: Vec<String>)
    ensures
        views(r@) == views(v@),
{
    let mut r: Vec<String> = Vec::new();
    let mut i: usize = 0;
    while i < v.len()
        invariant
            i <= v@.len(),
            views(r@) == views(v@).subrange(0, i as int),
        decreases v@.len() - i,
    {
        let s: String = v[i].clone();
        let ghost before = r@;
        r.push(s);
        assert(views(r@) =~= views(before).push(s@));
        i = i + 1;
        assert(views(r@) =~= views(v@).subrange(0, i as int));
    }
    assert(views(v@).subrange(0, i as int) =~= views(v@));
    r
}

impl Database {
    pub open spec fn wf(&self) -> bool {
        self.asset_registry.wf() && self.user_registry.wf()
    }

    /// Counts of identifiers and permissions, and how many grants could exist at most.
    pub fn status_report(&self) -> (r: StatusReport)
        requires
            self.wf(),
        ensures
            r.asset_count == self.asset_registry.ids@.len(),
            r.user_count == self.user_registry.ids@.len(),
            views(r.valid_permissions@) == views(self.valid_permissions@),
            r.permissions_in_effect == self.permission_log@.len(),
            match r.max_combinations {
                Some(n) => n == r.asset_count * r.user_count * self.valid_permissions@.len(),
                None => r.asset_count * r.user_count * self.valid_permissions@.len() > usize::MAX,
            },
    {
        let asset_count = self.asset_registry.ids.len();
        let user_count = self.user_registry.ids.len();
        let n_permissions = self.valid_permissions.len();
        let max_combinations = if n_permissions == 0 {
            assert(asset_count * user_count * 0 == 0) by (nonlinear_arith);
            Some(0)
        } else {
            match asset_count.checked_mul(user_count) {
                Some(pairs) => pairs.checked_mul(n_permissions),
                None => {
                    assert(asset_count * user_count * n_permissions >= asset_count * user_count)
                        by (nonlinear_arith)
                        requires
                            n_permissions >= 1,
                            asset_count * user_count >= 0,
                    ;
                    None
                },
            }
        };
        StatusReport {
            asset_count,
            user_count,
            valid_permissions: copy_strings(&self.valid_permissions),
            max_combinations,
            permissions_in_effect: self.permission_log.len(),
        }
    }
}

/// Settings read from configuration.
#[derive(Debug, Clone)]
pub struct Config {
    pub database_config: DatabaseConfig,
}

/// The database's settings: the permission names that commands may grant.
#[derive(Debug, Clone)]
pub struct DatabaseConfig {
    pub valid_permissions: Vec<String>,
}

} // verus!
