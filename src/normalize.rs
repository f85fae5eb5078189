//! The install normalizer: after extraction, the versioned release directory
//! is moved to a stable, version-independent name, replacing an earlier one.
use vstd::prelude::*;
use vstd::string::*;
use crate::text::{has_prefix, starts_with};

verus! {

/// Name of the stable install directory.
pub open spec fn stable_name() -> Seq<char> {
    "chmlfrp"@
}

/// Directories whose names begin with this are extracted releases.
pub open spec fn release_prefix() -> Seq<char> {
    "ChmlFrp-"@
}

/// An immediate child of the searched directory, as listed.
pub struct DirEntryInfo {
    pub name: String,
    pub is_dir: bool,
}

/// One file-system action of the normalizer, applied in order.
pub enum NormalizeStep {
    /// Delete the stable directory and everything in it.
    RemoveStable,
    /// Rename the directory `from` to the stable name.
    RenameToStable { from: String },
}

/// The abstract form of a `NormalizeStep`.
pub enum StepModel {
    RemoveStable,
    RenameToStable(Seq<char>),
}

impl View for NormalizeStep {
    type V = StepModel;

    open spec fn view(&self) -> StepModel {
        match self {
            NormalizeStep::RemoveStable => StepModel::RemoveStable,
            NormalizeStep::RenameToStable { from } => StepModel::RenameToStable(from@),
        }
    }
}

/// A listing as (name, is a directory) pairs.
pub open spec fn listing(entries: Seq<DirEntryInfo>) -> Seq<(Seq<char>, bool)> {
    entries.map_values(|e: DirEntryInfo| (e.name@, e.is_dir))
}

/// Steps as their abstract forms.
pub open spec fn steps_model(steps: Seq<NormalizeStep>) -> Seq<StepModel> {
    steps.map_values(|s: NormalizeStep| s@)
}

/// Whether a listed entry is an extracted release directory.
pub open spec fn is_release_dir(e: (Seq<char>, bool)) -> bool {
    e.1 && has_prefix(e.0, release_prefix())
}

/// The steps for a listing, in listing order: each release directory is
/// renamed to the stable name, after the stable directory is deleted if it
/// exists at that moment (`stable` tells whether it does).
pub open spec fn plan_steps(entries: Seq<(Seq<char>, bool)>, stable: bool) -> Seq<StepModel>
    decreases entries.len(),
{
    if entries.len() == 0 {
        Seq::empty()
    } else if is_release_dir(entries[0]) {
        let clear = if stable {
            seq![StepModel::RemoveStable]
        } else {
            Seq::empty()
        };
        clear + seq![StepModel::RenameToStable(entries[0].0)] + plan_steps(
            entries.drop_first(),
            true,
        )
    } else {
        plan_steps(entries.drop_first(), stable)
    }
}

/// The effect of one step on a directory, modelled as a map from child names
/// to their contents.
pub open spec fn apply_step<C>(step: StepModel, dir: Map<Seq<char>, C>) -> Map<Seq<char>, C> {
    match step {
        StepModel::RemoveStable => dir.remove(stable_name()),
        StepModel::RenameToStable(from) => if dir.contains_key(from) {
            dir.remove(from).insert(stable_name(), dir[from])
        } else {
            dir
        },
    }
}

/// The effect of a sequence of steps, first to last.
pub open spec fn apply_steps<C>(steps: Seq<StepModel>, dir: Map<Seq<char>, C>) -> Map<
    Seq<char>,
    C,
>
    decreases steps.len(),
{
    if steps.len() == 0 {
        dir
    } else {
        apply_steps(steps.drop_first(), apply_step(steps[0], dir))
    }
}

/// A listing without release directories gives no steps.
proof fn lemma_plan_without_release(entries: Seq<(Seq<char>, bool)>, stable: bool)
    requires
        forall|i: int| 0 <= i < entries.len() ==> !is_release_dir(#[trigger] entries[i]),
    ensures
        plan_steps(entries, stable) == Seq::<StepModel>::empty(),
    decreases entries.len(),
{
    if entries.len() > 0 {
        assert(!is_release_dir(entries[0]));
        let rest = entries.drop_first();
        assert forall|i: int| 0 <= i < rest.len() implies !is_release_dir(#[trigger] rest[i]) by {
            assert(rest[i] == entries[i + 1]);
        }
        lemma_plan_without_release(rest, stable);
    }
}

/// A listing with exactly one release directory, at `k`, gives at most one
/// removal followed by one rename.
proof fn lemma_plan_single_release(entries: Seq<(Seq<char>, bool)>, k: int, stable: bool)
    requires
        0 <= k < entries.len(),
        is_release_dir(entries[k]),
        forall|i: int| 0 <= i < entries.len() && i != k ==> !is_release_dir(#[trigger] entries[i]),
    ensures
        plan_steps(entries, stable) == (if stable {
            seq![StepModel::RemoveStable]
        } else {
            Seq::<StepModel>::empty()
        }) + seq![StepModel::RenameToStable(entries[k].0)],
    decreases entries.len(),
{
    let rest = entries.drop_first();
    if k == 0 {
        assert forall|i: int| 0 <= i < rest.len() implies !is_release_dir(#[trigger] rest[i]) by {
            assert(rest[i] == entries[i + 1]);
        }
        lemma_plan_without_release(rest, true);
        let clear = if stable {
            seq![StepModel::RemoveStable]
        } else {
            Seq::<StepModel>::empty()
        };
        assert(clear + seq![StepModel::RenameToStable(entries[0].0)] + Seq::<StepModel>::empty()
            =~= clear + seq![StepModel::RenameToStable(entries[0].0)]);
    } else {
        assert(!is_release_dir(entries[0]));
        assert(rest[k - 1] == entries[k]);
        assert forall|i: int| 0 <= i < rest.len() && i != k - 1 implies !is_release_dir(
            #[trigger] rest[i],
        ) by {
            assert(rest[i] == entries[i + 1]);
        }
        lemma_plan_single_release(rest, k - 1, stable);
    }
}

/// Normalizing a directory whose listing holds exactly one release directory
/// leaves the stable directory holding exactly that release's contents,
/// whether or not a stable directory existed before (its old contents are
/// gone); the versioned name no longer exists, and every other child is
/// untouched.
pub proof fn normalize_replaces_stable<C>(entries: Seq<(Seq<char>, bool)>, k: int, dir: Map<Seq<char>, C>)
    requires
        0 <= k < entries.len(),
        is_release_dir(entries[k]),
        forall|i: int| 0 <= i < entries.len() && i != k ==> !is_release_dir(#[trigger] entries[i]),
        dir.contains_key(entries[k].0),
    ensures
        ({
            let after = apply_steps(plan_steps(entries, dir.contains_key(stable_name())), dir);
            &&& after.contains_key(stable_name())
            &&& after[stable_name()] == dir[entries[k].0]
            &&& !after.contains_key(entries[k].0)
            &&& forall|n: Seq<char>|
                n != stable_name() && n != entries[k].0 ==> (#[trigger] after.contains_key(n)
                    == dir.contains_key(n) && (dir.contains_key(n) ==> after[n] == dir[n]))
        }),
{
    let v = entries[k].0;
    reveal_strlit("chmlfrp");
    reveal_strlit("ChmlFrp-");
    assert(v != stable_name()) by {
        if v == stable_name() {
            assert(v.len() < release_prefix().len());
        }
    }
    let stable = dir.contains_key(stable_name());
    lemma_plan_single_release(entries, k, stable);
    let steps = plan_steps(entries, stable);
    let rename = StepModel::RenameToStable(v);
    if stable {
        let d1 = dir.remove(stable_name());
        assert(steps[0] == StepModel::RemoveStable);
        assert(steps.drop_first() =~= seq![rename]);
        assert(seq![rename].drop_first() =~= Seq::<StepModel>::empty());
        assert(apply_steps(steps, dir) == apply_steps(seq![rename], d1));
        assert(seq![rename][0] == rename);
        assert(apply_steps(Seq::<StepModel>::empty(), apply_step(rename, d1)) == apply_step(
            rename,
            d1,
        ));
        assert(apply_steps(seq![rename], d1) == apply_step(rename, d1));
    } else {
        assert(steps =~= seq![rename]);
        assert(seq![rename].drop_first() =~= Seq::<StepModel>::empty());
        assert(seq![rename][0] == rename);
        assert(apply_steps(Seq::<StepModel>::empty(), apply_step(rename, dir)) == apply_step(
            rename,
            dir,
        ));
        assert(apply_steps(steps, dir) == apply_step(rename, dir));
    }
}

/// Computes the steps for a listing of the searched directory, given whether
/// the stable directory exists before the first step.
pub fn plan_normalize(entries: &Vec<DirEntryInfo>, stable_exists: bool) -> (r: Vec<NormalizeStep>)
    ensures
        steps_model(r@) == plan_steps(listing(entries@), stable_exists),
{
    let ghost all = listing(entries@);
    let mut r: Vec<NormalizeStep> = Vec::new();
    let mut stable = stable_exists;
    let mut i: usize = 0;
    assert(all.subrange(0, all.len() as int) =~= all);
    assert(steps_model(r@) + plan_steps(all, stable) =~= plan_steps(all, stable));
    while i < entries.len()
        invariant
            i <= entries@.len(),
            all == listing(entries@),
            steps_model(r@) + plan_steps(all.subrange(i as int, all.len() as int), stable)
                == plan_steps(all, stable_exists),
        decreases entries@.len() - i,
    {
        let ghost rest = all.subrange(i as int, all.len() as int);
        assert(rest.drop_first() =~= all.subrange(i + 1, all.len() as int));
        assert(rest[0] == all[i as int]);
        let e = &entries[i];
        if e.is_dir && starts_with(e.name.as_str(), "ChmlFrp-") {
            let ghost before = steps_model(r@);
            let ghost st = stable;
            if stable {
                r.push(NormalizeStep::RemoveStable);
            }
            r.push(NormalizeStep::RenameToStable { from: e.name.clone() });
            stable = true;
            let ghost clear = if st {
                seq![StepModel::RemoveStable]
            } else {
                Seq::<StepModel>::empty()
            };
            assert(steps_model(r@) =~= before + clear + seq![
                StepModel::RenameToStable(all[i as int].0),
            ]);
            assert(before + (clear + seq![StepModel::RenameToStable(all[i as int].0)] + plan_steps(
                rest.drop_first(),
                true,
            )) =~= before + clear + seq![StepModel::RenameToStable(all[i as int].0)]
                + plan_steps(rest.drop_first(), true));
        }
        i = i + 1;
    }
    assert(all.subrange(all.len() as int, all.len() as int) =~= Seq::<(Seq<char>, bool)>::empty());
    assert(steps_model(r@) + Seq::<StepModel>::empty() =~= steps_model(r@));
    r
}

} // verus!
