//! The route resolver: an exact, case-sensitive lookup of the first path
//! segment's name in the configured application table, in table order.
//! A miss reports the requested name and every configured name.

use vstd::prelude::*;
use crate::config::ArrApp;
use crate::errors::{AppError, RouteMiss};

verus! {

/// The backend base URL of the first configured application whose name
/// matches, or `None` when no name matches.
pub open spec fn resolve_spec(apps: Seq<ArrApp>, name: Seq<char>) -> Option<Seq<char>>
    decreases apps.len(),
{
    if apps.len() == 0 {
        None
    } else if apps[0].name@ == name {
        Some(apps[0].url@)
    } else {
        resolve_spec(apps.drop_first(), name)
    }
}

/// Look a name up in the route table. On a miss the error carries the
/// requested name and the full list of configured names.
pub fn resolve(apps: &Vec<ArrApp>, app_name: &String) -> (r: Result<String, AppError>)
    ensures
        match r {
            Ok(url) => resolve_spec(apps@, app_name@) == Some(url@),
            Err(e) => resolve_spec(apps@, app_name@) is None && (e matches AppError::AppNotFound(
                miss,
            ) && miss.requested@ == app_name@ && miss.available@.len() == apps@.len() && (forall|
                i: int,
            |
                0 <= i < apps@.len() ==> #[trigger] miss.available@[i]@ == apps@[i].name@)),
        },
{
    let n = apps.len();
    let mut i: usize = 0;
    proof {
        assert(apps@.skip(0) =~= apps@);
    }
    while i < n
        invariant
            n == apps@.len(),
            i <= n,
            resolve_spec(apps@, app_name@) == resolve_spec(apps@.skip(i as int), app_name@),
        decreases n - i,
    {
        proof {
            assert(apps@.skip(i as int)[0] == apps@[i as int]);
            assert(apps@.skip(i as int).drop_first() =~= apps@.skip(i as int + 1));
        }
        if apps[i].name == *app_name {
            return Ok(apps[i].url.clone());
        }
        i += 1;
    }
    proof {
        assert(apps@.skip(n as int).len() == 0);
    }
    let mut available: Vec<String> = Vec::new();
    let mut k: usize = 0;
    while k < n
        invariant
            n == apps@.len(),
            k <= n,
            available@.len() == k,
            forall|t: int| 0 <= t < k ==> #[trigger] available@[t]@ == apps@[t].name@,
        decreases n - k,
    {
        available.push(apps[k].name.clone());
        k += 1;
    }
    Err(AppError::AppNotFound(RouteMiss { requested: app_name.clone(), available }))
}

} // verus!
