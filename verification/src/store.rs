//! An in-memory key directory.
//!
//! A [`KeyStore`] maps file names to file bytes, each name held once; its
//! mathematical view is a `Map<Seq<char>, Seq<u8>>`. It stands for the
//! destination directory of an import: carrying out an import plan against
//! it is [`apply_plan`], and [`import_into_store`] runs a whole decoded
//! import against it. The laws about imports, and the tests, speak of
//! stores; the application performs the same writes on the real directory.

use vstd::prelude::*;

use crate::backup::{
    build_report, clone_bytes, plan_import, plan_view, spec_none_outcomes, spec_plan, spec_report,
    successful_outcomes, ImportOptions, ImportReport, PlanEntryView, PlannedEntry,
};
use crate::codec::{entries_view, BackupData};
use crate::text::{str_eq, views_of};

verus! {

/// File names to file bytes, each name once.
pub struct KeyStore {
    files: Vec<(String, Vec<u8>)>,
}

/// The map a list of named files denotes; an earlier file hides a later one
/// of the same name.
pub open spec fn store_map_of(files: Seq<(String, Vec<u8>)>) -> Map<Seq<char>, Seq<u8>>
    decreases files.len(),
{
    if files.len() == 0 {
        Map::empty()
    } else {
        store_map_of(files.drop_first()).insert(files[0].0@, files[0].1@)
    }
}

impl View for KeyStore {
    type V = Map<Seq<char>, Seq<u8>>;

    closed spec fn view(&self) -> Map<Seq<char>, Seq<u8>> {
        store_map_of(self.files@)
    }
}

/// A name nowhere in the list is not in the map.
proof fn lemma_map_absent(files: Seq<(String, Vec<u8>)>, name: Seq<char>)
    requires
        forall|k: int| 0 <= k < files.len() ==> files[k].0@ != name,
    ensures
        !store_map_of(files).contains_key(name),
    decreases files.len(),
{
    if files.len() == 0 {
    } else {
        assert forall|k: int| 0 <= k < files.drop_first().len() implies files.drop_first()[k].0@
            != name by {
            assert(files.drop_first()[k] == files[k + 1]);
        }
        lemma_map_absent(files.drop_first(), name);
    }
}

/// A name somewhere in the list is in the map.
proof fn lemma_map_contains(files: Seq<(String, Vec<u8>)>, name: Seq<char>)
    requires
        exists|k: int| 0 <= k < files.len() && files[k].0@ == name,
    ensures
        store_map_of(files).contains_key(name),
    decreases files.len(),
{
    let k = choose|k: int| 0 <= k < files.len() && files[k].0@ == name;
    if k == 0 {
    } else {
        assert(files.drop_first()[k - 1] == files[k]);
        lemma_map_contains(files.drop_first(), name);
    }
}

/// The first file of a name gives the map's value at that name.
proof fn lemma_map_found(files: Seq<(String, Vec<u8>)>, name: Seq<char>, j: int)
    requires
        0 <= j < files.len(),
        files[j].0@ == name,
        forall|k: int| 0 <= k < j ==> files[k].0@ != name,
    ensures
        store_map_of(files).contains_key(name),
        store_map_of(files)[name] == files[j].1@,
    decreases files.len(),
{
    if j == 0 {
    } else {
        assert forall|k: int| 0 <= k < j - 1 implies files.drop_first()[k].0@ != name by {
            assert(files.drop_first()[k] == files[k + 1]);
        }
        assert(files.drop_first()[j - 1] == files[j]);
        lemma_map_found(files.drop_first(), name, j - 1);
    }
}

/// Replacing the one file of a name updates the map at that name.
proof fn lemma_map_update(files: Seq<(String, Vec<u8>)>, j: int, p: (String, Vec<u8>))
    requires
        0 <= j < files.len(),
        files[j].0@ == p.0@,
        forall|k: int| 0 <= k < files.len() && k != j ==> files[k].0@ != p.0@,
    ensures
        store_map_of(files.update(j, p)) == store_map_of(files).insert(p.0@, p.1@),
    decreases files.len(),
{
    if j == 0 {
        assert(files.update(0, p).drop_first() =~= files.drop_first());
        assert(store_map_of(files.update(0, p)) =~= store_map_of(files).insert(p.0@, p.1@));
    } else {
        assert(files.update(j, p).drop_first() =~= files.drop_first().update(j - 1, p));
        assert forall|k: int|
            0 <= k < files.drop_first().len() && k != j - 1 implies files.drop_first()[k].0@
            != p.0@ by {
            assert(files.drop_first()[k] == files[k + 1]);
        }
        assert(files.drop_first()[j - 1] == files[j]);
        lemma_map_update(files.drop_first(), j - 1, p);
        assert(files[0].0@ != p.0@);
        assert(store_map_of(files.update(j, p)) =~= store_map_of(files).insert(p.0@, p.1@));
    }
}

/// Appending a file of a fresh name inserts it into the map.
proof fn lemma_map_push(files: Seq<(String, Vec<u8>)>, p: (String, Vec<u8>))
    requires
        forall|k: int| 0 <= k < files.len() ==> files[k].0@ != p.0@,
    ensures
        store_map_of(files.push(p)) == store_map_of(files).insert(p.0@, p.1@),
    decreases files.len(),
{
    if files.len() == 0 {
        assert(files.push(p)[0] == p);
        assert(files.push(p).drop_first() =~= files);
        assert(store_map_of(files.push(p)) == store_map_of(files).insert(p.0@, p.1@));
    } else {
        assert(files.push(p).drop_first() =~= files.drop_first().push(p));
        assert forall|k: int| 0 <= k < files.drop_first().len() implies files.drop_first()[k].0@
            != p.0@ by {
            assert(files.drop_first()[k] == files[k + 1]);
        }
        lemma_map_push(files.drop_first(), p);
        assert(files[0].0@ != p.0@);
        assert(store_map_of(files.push(p)) =~= store_map_of(files).insert(p.0@, p.1@));
    }
}

impl KeyStore {
    /// Each name is held at most once.
    pub closed spec fn wf(&self) -> bool {
        forall|i: int, j: int|
            0 <= i < j < self.files@.len() ==> self.files@[i].0@ != self.files@[j].0@
    }

    /// An empty store.
    pub fn new() -> (r: KeyStore)
        ensures
            r.wf(),
            r@ == Map::<Seq<char>, Seq<u8>>::empty(),
    {
        KeyStore { files: Vec::new() }
    }

    /// The bytes of the file of this name, if it is there.
    pub fn get(&self, name: &str) -> (r: Option<&Vec<u8>>)
        ensures
            r matches Some(b) ==> self@.contains_key(name@) && self@[name@] == b@,
            r is None ==> !self@.contains_key(name@),
    {
        let mut i: usize = 0;
        while i < self.files.len()
            invariant
                i <= self.files@.len(),
                forall|k: int| 0 <= k < i ==> self.files@[k].0@ != name@,
            decreases self.files@.len() - i,
        {
            if str_eq(self.files[i].0.as_str(), name) {
                proof {
                    lemma_map_found(self.files@, name@, i as int);
                }
                return Some(&self.files[i].1);
            }
            i += 1;
        }
        proof {
            lemma_map_absent(self.files@, name@);
        }
        None
    }

    /// Whether a file of this name is there.
    pub fn contains_file(&self, name: &str) -> (r: bool)
        ensures
            r == self@.contains_key(name@),
    {
        self.get(name).is_some()
    }

    /// Write a file: replace the bytes of this name, or add the file.
    pub fn put(&mut self, name: &str, bytes: Vec<u8>)
        requires
            old(self).wf(),
        ensures
            final(self).wf(),
            final(self)@ == old(self)@.insert(name@, bytes@),
    {
        let mut i: usize = 0;
        while i < self.files.len()
            invariant
                old(self).wf(),
                self.files@ == old(self).files@,
                i <= self.files@.len(),
                forall|k: int| 0 <= k < i ==> self.files@[k].0@ != name@,
            decreases self.files@.len() - i,
        {
            if str_eq(self.files[i].0.as_str(), name) {
                let ghost before = self.files@;
                self.files[i] = (name.to_owned(), bytes);
                proof {
                    let p = self.files@[i as int];
                    assert(self.files@ =~= before.update(i as int, p));
                    assert forall|k: int|
                        0 <= k < before.len() && k != i implies before[k].0@ != p.0@ by {}
                    lemma_map_update(before, i as int, p);
                }
                return ;
            }
            i += 1;
        }
        proof {
            lemma_map_absent(self.files@, name@);
        }
        let ghost before = self.files@;
        self.files.push((name.to_owned(), bytes));
        proof {
            let p = self.files@[before.len() as int];
            assert(self.files@ =~= before.push(p));
            lemma_map_push(before, p);
        }
    }

    /// The names of all files in the store.
    pub fn file_names(&self) -> (r: Vec<String>)
        ensures
            views_of(r@).to_set() == self@.dom(),
    {
        let mut r: Vec<String> = Vec::new();
        let mut i: usize = 0;
        while i < self.files.len()
            invariant
                i <= self.files@.len(),
                r@.len() == i,
                forall|k: int| 0 <= k < i ==> r@[k]@ == self.files@[k].0@,
            decreases self.files@.len() - i,
        {
            r.push(self.files[i].0.clone());
            i += 1;
        }
        proof {
            assert forall|n: Seq<char>|
                views_of(r@).to_set().contains(n) == self@.dom().contains(n) by {
                if views_of(r@).to_set().contains(n) {
                    let k = choose|k: int| 0 <= k < views_of(r@).len() && views_of(r@)[k] == n;
                    assert(self.files@[k].0@ == n);
                    lemma_map_contains(self.files@, n);
                }
                if self@.dom().contains(n) {
                    if forall|k: int| 0 <= k < self.files@.len() ==> self.files@[k].0@ != n {
                        lemma_map_absent(self.files@, n);
                    }
                    let k = choose|k: int|
                        0 <= k < self.files@.len() && self.files@[k].0@ == n;
                    assert(views_of(r@)[k] == n);
                    assert(views_of(r@).contains(n));
                }
            }
            assert(views_of(r@).to_set() =~= self@.dom());
        }
        r
    }
}


/// What carrying out one planned entry does to a store: each present half is
/// written to its file, the private half at the target name, the public half
/// at the target name with the `.pub` extension.
pub open spec fn spec_apply_entry(
    store: Map<Seq<char>, Seq<u8>>,
    p: PlanEntryView,
) -> Map<Seq<char>, Seq<u8>> {
    let after_private = match p.private_key {
        Option::Some(b) => store.insert(p.target, b),
        Option::None => store,
    };
    match p.public_key {
        Option::Some(b) => after_private.insert(p.target + ".pub"@, b),
        Option::None => after_private,
    }
}

/// What carrying out a whole plan does: each entry in order.
pub open spec fn spec_apply_plan(
    store: Map<Seq<char>, Seq<u8>>,
    plan: Seq<PlanEntryView>,
) -> Map<Seq<char>, Seq<u8>>
    decreases plan.len(),
{
    if plan.len() == 0 {
        store
    } else {
        spec_apply_plan(spec_apply_entry(store, plan[0]), plan.drop_first())
    }
}

/// Carrying out one more entry extends carrying out the ones before it.
proof fn lemma_apply_plan_push(
    store: Map<Seq<char>, Seq<u8>>,
    plan: Seq<PlanEntryView>,
    p: PlanEntryView,
)
    ensures
        spec_apply_plan(store, plan.push(p)) == spec_apply_entry(spec_apply_plan(store, plan), p),
    decreases plan.len(),
{
    let pushed = plan.push(p);
    if plan.len() == 0 {
        assert(pushed[0] == p);
        assert(pushed.drop_first() =~= plan);
        assert(spec_apply_plan(store, pushed) == spec_apply_plan(
            spec_apply_entry(store, pushed[0]),
            pushed.drop_first(),
        ));
        assert(spec_apply_plan(spec_apply_entry(store, p), plan) == spec_apply_entry(store, p));
        assert(spec_apply_plan(store, plan) == store);
    } else {
        assert(pushed[0] == plan[0]);
        assert(pushed.drop_first() =~= plan.drop_first().push(p));
        assert(spec_apply_plan(store, pushed) == spec_apply_plan(
            spec_apply_entry(store, pushed[0]),
            pushed.drop_first(),
        ));
        lemma_apply_plan_push(spec_apply_entry(store, plan[0]), plan.drop_first(), p);
        assert(spec_apply_plan(store, plan) == spec_apply_plan(
            spec_apply_entry(store, plan[0]),
            plan.drop_first(),
        ));
    }
}

/// Carry an import plan out against a store: perform exactly the writes the
/// plan holds, in plan order. A dry-run plan holds no bytes, so this writes
/// nothing for it.
pub fn apply_plan(store: &mut KeyStore, plan: &Vec<PlannedEntry>)
    requires
        old(store).wf(),
    ensures
        final(store).wf(),
        final(store)@ == spec_apply_plan(old(store)@, plan_view(plan@)),
{
    let ghost pv = plan_view(plan@);
    let mut i: usize = 0;
    proof {
        assert(pv.take(0) =~= Seq::<PlanEntryView>::empty());
    }
    while i < plan.len()
        invariant
            i <= plan@.len(),
            pv == plan_view(plan@),
            store.wf(),
            store@ == spec_apply_plan(old(store)@, pv.take(i as int)),
        decreases plan@.len() - i,
    {
        let p = &plan[i];
        let ghost store_before = store@;
        match &p.private_key {
            Option::Some(b) => {
                store.put(p.target.as_str(), clone_bytes(b));
            },
            Option::None => {},
        }
        match &p.public_key {
            Option::Some(b) => {
                let mut pub_target = p.target.clone();
                pub_target.append(".pub");
                store.put(pub_target.as_str(), clone_bytes(b));
            },
            Option::None => {},
        }
        proof {
            assert(store@ == spec_apply_entry(store_before, pv[i as int]));
            assert(pv.take(i + 1 as int) =~= pv.take(i as int).push(pv[i as int]));
            lemma_apply_plan_push(old(store)@, pv.take(i as int), pv[i as int]);
        }
        i += 1;
    }
    proof {
        assert(pv.take(pv.len() as int) =~= pv);
    }
}

/// Run a whole decoded import against an in-memory store: plan every entry
/// against the store's current names, carry the plan out, and report. Under
/// `dry_run` the plan holds no bytes and the store comes through unchanged.
pub fn import_into_store(
    store: &mut KeyStore,
    data: &BackupData,
    options: &ImportOptions,
    rename_suffix: &str,
) -> (r: ImportReport)
    requires
        old(store).wf(),
    ensures
        final(store).wf(),
        final(store)@ == spec_apply_plan(
            old(store)@,
            spec_plan(entries_view(data.keys@), old(store)@.dom(), *options, rename_suffix@),
        ),
        r@ == spec_report(
            spec_plan(entries_view(data.keys@), old(store)@.dom(), *options, rename_suffix@),
            spec_none_outcomes(entries_view(data.keys@).len()),
        ),
{
    let names = store.file_names();
    let plan = plan_import(data, &names, options, rename_suffix);
    apply_plan(store, &plan);
    let outcomes = successful_outcomes(&plan);
    build_report(&plan, &outcomes)
}

} // verus!
