//! Forward migration of the decrypted config, and the refusal that has to sit
//! beside it.
//!
//! The refusal is the load-bearing half. Unknown fields are dropped when a
//! config is read, and every save rewrites the whole of it, so a build that
//! opened a newer config would quietly destroy what the newer one had stored.
use vstd::prelude::*;

use crate::config::model::CURRENT_SCHEMA_VERSION;
use crate::error::{AppError, ErrorView};
use crate::text::{decimal, owned, push_decimal};

verus! {

/// The schema version of a config that does not state one: it predates the
/// field, which means it is the version that introduced it.
pub fn assume_current() -> (r: u32)
    ensures
        r == CURRENT_SCHEMA_VERSION,
{
    CURRENT_SCHEMA_VERSION
}

/// The error for a version that no step upgrades from.
pub open spec fn no_migration(version: nat) -> ErrorView {
    ErrorView::CorruptFile(
        "no migration from schema version "@ + decimal(version) + "; this vault cannot be upgraded"@,
    )
}

/// The versions from `from` up to, not including, `to`.
pub open spec fn versions(from: u32, to: u32) -> Seq<u32> {
    Seq::new((to - from) as nat, |i: int| (from + i) as u32)
}

/// The steps that lead from one schema version to another: one step from each
/// version on the way, in order. Where a version has none, nothing is upgraded.
pub open spec fn walk(from: u32, to: u32, steps: Seq<u32>) -> Result<Seq<u32>, ErrorView>
    decreases to - from,
{
    if from >= to {
        Ok(Seq::empty())
    } else if !steps.contains(from) {
        Err(no_migration(from as nat))
    } else {
        match walk((from + 1) as u32, to, steps) {
            Ok(rest) => Ok(seq![from] + rest),
            Err(e) => Err(e),
        }
    }
}

/// What to do with a config of schema version `found`: refuse a newer one, and
/// take an older one through its steps.
pub open spec fn schema_plan(found: u32, supported: u32, steps: Seq<u32>) -> Result<Seq<u32>, ErrorView> {
    if found > supported {
        Err(ErrorView::SchemaTooNew { found, supported })
    } else {
        walk(found, supported, steps)
    }
}

/// Whether a result is `expected`, by its views.
pub open spec fn plan_is(r: Result<Vec<u32>, AppError>, expected: Result<Seq<u32>, ErrorView>) -> bool {
    match r {
        Ok(v) => expected == Ok::<Seq<u32>, ErrorView>(v@),
        Err(e) => expected == Err::<Seq<u32>, ErrorView>(e@),
    }
}

/// Whether `steps` has a step from `version`.
fn has_step(steps: &[u32], version: u32) -> (r: bool)
    ensures
        r == steps@.contains(version),
{
    let mut i: usize = 0;
    while i < steps.len()
        invariant
            i <= steps@.len(),
            forall|j: int| 0 <= j < i ==> steps@[j] != version,
        decreases steps@.len() - i,
    {
        if steps[i] == version {
            return true;
        }
        i = i + 1;
    }
    false
}

/// The steps to take, in order, from schema version `from` to `to`.
pub fn migrate_forward(from: u32, to: u32, steps: &[u32]) -> (r: Result<Vec<u32>, AppError>)
    ensures
        plan_is(r, walk(from, to, steps@)),
{
    let mut taken: Vec<u32> = Vec::new();
    let mut version: u32 = from;
    while version < to
        invariant
            from <= version,
            version <= to || version == from,
            match walk(version, to, steps@) {
                Ok(rest) => walk(from, to, steps@) == Ok::<Seq<u32>, ErrorView>(taken@ + rest),
                Err(e) => walk(from, to, steps@) == Err::<Seq<u32>, ErrorView>(e),
            },
        decreases to - version,
    {
        if !has_step(steps, version) {
            // Without this a gap in the steps would spin here forever.
            let mut text = owned("no migration from schema version ");
            push_decimal(&mut text, version as u64);
            text.push_str("; this vault cannot be upgraded");
            return Err(AppError::CorruptFile(text));
        }
        let ghost before = taken@;
        taken.push(version);
        version = version + 1;
        proof {
            match walk(version, to, steps@) {
                Ok(rest) => {
                    assert(before + (seq![(version - 1) as u32] + rest) =~= taken@ + rest);
                },
                Err(_) => {},
            }
        }
    }
    assert(taken@ + Seq::<u32>::empty() =~= taken@);
    Ok(taken)
}

/// Decides about a config by its schema version, before anything else of it is
/// read. `found` is `None` where the config states no version; `steps` are the
/// versions that an upgrade step exists for.
pub fn plan_schema(found: Option<u32>, steps: &[u32]) -> (r: Result<Vec<u32>, AppError>)
    ensures
        plan_is(
            r,
            schema_plan(
                match found {
                    Some(v) => v,
                    None => CURRENT_SCHEMA_VERSION,
                },
                CURRENT_SCHEMA_VERSION,
                steps@,
            ),
        ),
{
    let version: u32 = match found {
        Some(v) => v,
        None => assume_current(),
    };
    if version > CURRENT_SCHEMA_VERSION {
        return Err(AppError::SchemaTooNew { found: version, supported: CURRENT_SCHEMA_VERSION });
    }
    migrate_forward(version, CURRENT_SCHEMA_VERSION, steps)
}

/// A successful walk takes every version on the way exactly once, in order.
pub proof fn the_walk_takes_every_version_in_order(from: u32, to: u32, steps: Seq<u32>)
    requires
        from <= to,
    ensures
        walk(from, to, steps) matches Ok(taken) ==> taken == versions(from, to),
        walk(from, to, steps) is Ok <==> forall|v: u32| from <= v < to ==> #[trigger] steps.contains(v),
    decreases to - from,
{
    if from < to {
        let next = (from + 1) as u32;
        the_walk_takes_every_version_in_order(next, to, steps);
        if walk(from, to, steps) is Ok {
            assert(walk(from, to, steps)->Ok_0 =~= versions(from, to));
        }
        if forall|v: u32| from <= v < to ==> #[trigger] steps.contains(v) {
            assert(steps.contains(from));
            assert forall|v: u32| next <= v < to implies #[trigger] steps.contains(v) by {}
        }
        if walk(from, to, steps) is Ok {
            assert forall|v: u32| from <= v < to implies #[trigger] steps.contains(v) by {
                if v != from {
                    assert(next <= v);
                }
            }
        }
    } else {
        assert(versions(from, to) =~= Seq::<u32>::empty());
    }
}

/// A config at the current version has no step applied to it.
pub proof fn nothing_runs_at_the_current_version(version: u32, steps: Seq<u32>)
    ensures
        schema_plan(version, version, steps) == Ok::<Seq<u32>, ErrorView>(Seq::empty()),
{
}

/// A config of a newer schema is refused with both versions; one of the current
/// schema needs nothing; an older one is taken through a step from each version,
/// in order, and refused where one is missing.
pub proof fn a_schema_is_brought_up_step_by_step(found: u32, supported: u32, steps: Seq<u32>)
    ensures
        found > supported ==> schema_plan(found, supported, steps) == Err::<Seq<u32>, ErrorView>(
            ErrorView::SchemaTooNew { found, supported },
        ),
        found == supported ==> schema_plan(found, supported, steps) == Ok::<Seq<u32>, ErrorView>(Seq::empty()),
        found < supported ==> match schema_plan(found, supported, steps) {
            Ok(plan) => {
                &&& plan.len() == supported - found
                &&& forall|i: int|
                    0 <= i < plan.len() ==> #[trigger] plan[i] == found + i && steps.contains(plan[i])
            },
            Err(e) => e is CorruptFile && exists|v: u32| found <= v < supported && !#[trigger] steps.contains(v),
        },
{
    if found < supported {
        lemma_walk(found, supported, steps);
    }
}

proof fn lemma_walk(from: u32, to: u32, steps: Seq<u32>)
    requires
        from <= to,
    ensures
        match walk(from, to, steps) {
            Ok(plan) => {
                &&& plan.len() == to - from
                &&& forall|i: int| 0 <= i < plan.len() ==> #[trigger] plan[i] == from + i && steps.contains(plan[i])
            },
            Err(e) => e is CorruptFile && exists|v: u32| from <= v < to && !#[trigger] steps.contains(v),
        },
    decreases to - from,
{
    if from < to && steps.contains(from) {
        lemma_walk((from + 1) as u32, to, steps);
        if let Ok(rest) = walk((from + 1) as u32, to, steps) {
            let plan = seq![from] + rest;
            assert forall|i: int| 0 <= i < plan.len() implies #[trigger] plan[i] == from + i && steps.contains(plan[i]) by {
                if i > 0 {
                    assert(plan[i] == rest[i - 1]);
                }
            }
        }
    }
}

/// A file that says nothing of its schema is taken to be of the current one, and
/// the schema that is written is the first.
pub proof fn a_file_without_a_schema_is_current(steps: &[u32], r: Result<Vec<u32>, AppError>)
    requires
        call_ensures(plan_schema, (None, steps), r),
    ensures
        r matches Ok(plan) && plan@.len() == 0,
{
}

/// A schema that no step leads on from is refused by its number.
pub proof fn a_missing_step_is_named(found: u32, supported: u32, steps: Seq<u32>)
    requires
        found < supported,
        !steps.contains(found),
    ensures
        schema_plan(found, supported, steps) == Err::<Seq<u32>, ErrorView>(
            ErrorView::CorruptFile(
                "no migration from schema version "@ + decimal(found as nat) + "; this vault cannot be upgraded"@,
            ),
        ),
{
}

} // verus!
