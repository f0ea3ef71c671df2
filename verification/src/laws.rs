//! The engine's laws, proved once over the specification functions that the
//! executable functions' contracts speak of: what lands in which report
//! bucket, that a dry run changes nothing, what each merge strategy does to
//! the destination, what the export filter keeps, and that an exported
//! container imports back in full.

use vstd::prelude::*;

use crate::backup::{
    spec_build_entries, spec_dry_rename_label, spec_empty_report, spec_entry_of_record,
    spec_export_container, spec_none_outcomes, spec_plan, spec_plan_entry, spec_rename_target,
    spec_report, spec_report_entry, spec_report_from, spec_selected, spec_store_has,
    EnvironmentView, ExportOptionsView, ImportOptions, MergeStrategy, PlanEntryView, ReportView,
};
use crate::codec::{container_fits, spec_decode, spec_encode, EntryView};
use crate::keys::RecordView;
use crate::store::{spec_apply_entry, spec_apply_plan};

verus! {

/// The names a run of the plan records as imported: the labels of the
/// entries whose action imports, in plan order.
pub open spec fn spec_imported_of(plan: Seq<PlanEntryView>) -> Seq<Seq<char>>
    decreases plan.len(),
{
    if plan.len() == 0 {
        Seq::empty()
    } else {
        (if plan[0].action is Import || plan[0].action is RenameImport {
            seq![plan[0].label]
        } else {
            Seq::empty()
        }) + spec_imported_of(plan.drop_first())
    }
}

/// The names recorded as skipped, in plan order.
pub open spec fn spec_skipped_of(plan: Seq<PlanEntryView>) -> Seq<Seq<char>>
    decreases plan.len(),
{
    if plan.len() == 0 {
        Seq::empty()
    } else {
        (if plan[0].action is Skip {
            seq![plan[0].label]
        } else {
            Seq::empty()
        }) + spec_skipped_of(plan.drop_first())
    }
}

/// The names recorded as overwritten, in plan order.
pub open spec fn spec_overwritten_of(plan: Seq<PlanEntryView>) -> Seq<Seq<char>>
    decreases plan.len(),
{
    if plan.len() == 0 {
        Seq::empty()
    } else {
        (if plan[0].action is Overwrite {
            seq![plan[0].label]
        } else {
            Seq::empty()
        }) + spec_overwritten_of(plan.drop_first())
    }
}

/// Folding all-successful outcomes extends each bucket by that bucket's
/// labels and leaves the errors alone.
proof fn lemma_report_from_none(rep: ReportView, plan: Seq<PlanEntryView>)
    ensures
        spec_report_from(rep, plan, spec_none_outcomes(plan.len())) == (ReportView {
            imported: rep.imported + spec_imported_of(plan),
            skipped: rep.skipped + spec_skipped_of(plan),
            overwritten: rep.overwritten + spec_overwritten_of(plan),
            errors: rep.errors,
        }),
    decreases plan.len(),
{
    let outs = spec_none_outcomes(plan.len());
    if plan.len() == 0 {
        assert(spec_report_from(rep, plan, outs) =~= ReportView {
            imported: rep.imported + spec_imported_of(plan),
            skipped: rep.skipped + spec_skipped_of(plan),
            overwritten: rep.overwritten + spec_overwritten_of(plan),
            errors: rep.errors,
        }) by {
            assert(rep.imported + Seq::<Seq<char>>::empty() =~= rep.imported);
            assert(rep.skipped + Seq::<Seq<char>>::empty() =~= rep.skipped);
            assert(rep.overwritten + Seq::<Seq<char>>::empty() =~= rep.overwritten);
        }
    } else {
        let rep1 = spec_report_entry(rep, plan[0], outs[0]);
        assert(outs[0] is None);
        assert(outs.drop_first() =~= spec_none_outcomes(plan.drop_first().len()));
        lemma_report_from_none(rep1, plan.drop_first());
        assert(spec_report_from(rep, plan, outs) =~= ReportView {
            imported: rep.imported + spec_imported_of(plan),
            skipped: rep.skipped + spec_skipped_of(plan),
            overwritten: rep.overwritten + spec_overwritten_of(plan),
            errors: rep.errors,
        }) by {
            assert(rep1.imported + spec_imported_of(plan.drop_first()) =~= rep.imported
                + spec_imported_of(plan));
            assert(rep1.skipped + spec_skipped_of(plan.drop_first()) =~= rep.skipped
                + spec_skipped_of(plan));
            assert(rep1.overwritten + spec_overwritten_of(plan.drop_first()) =~= rep.overwritten
                + spec_overwritten_of(plan));
        }
    }
}

/// What an import whose writes all land reports: each bucket holds exactly
/// its labels, in plan order, and nothing is in the errors.
pub proof fn lemma_report_buckets(plan: Seq<PlanEntryView>)
    ensures
        spec_report(plan, spec_none_outcomes(plan.len())) == (ReportView {
            imported: spec_imported_of(plan),
            skipped: spec_skipped_of(plan),
            overwritten: spec_overwritten_of(plan),
            errors: Seq::empty(),
        }),
{
    lemma_report_from_none(spec_empty_report(), plan);
    assert(Seq::<Seq<char>>::empty() + spec_imported_of(plan) =~= spec_imported_of(plan));
    assert(Seq::<Seq<char>>::empty() + spec_skipped_of(plan) =~= spec_skipped_of(plan));
    assert(Seq::<Seq<char>>::empty() + spec_overwritten_of(plan) =~= spec_overwritten_of(plan));
    assert(spec_report(plan, spec_none_outcomes(plan.len())) =~= ReportView {
        imported: spec_imported_of(plan),
        skipped: spec_skipped_of(plan),
        overwritten: spec_overwritten_of(plan),
        errors: Seq::empty(),
    });
}

/// A plan over one entry list and one destination, shortened by its first
/// entry, is the plan over the shortened list.
proof fn lemma_plan_drop_first(
    entries: Seq<EntryView>,
    dom: Set<Seq<char>>,
    opts: ImportOptions,
    suffix: Seq<char>,
)
    requires
        entries.len() > 0,
    ensures
        spec_plan(entries, dom, opts, suffix).drop_first() == spec_plan(
            entries.drop_first(),
            dom,
            opts,
            suffix,
        ),
{
    assert(spec_plan(entries, dom, opts, suffix).drop_first() =~= spec_plan(
        entries.drop_first(),
        dom,
        opts,
        suffix,
    ));
}

/// Exporting with only public halves produces entries with no private half
/// at all, whatever the records held.
pub proof fn lemma_public_only_omits_private(records: Seq<RecordView>, opts: ExportOptionsView)
    requires
        opts.include_public_only,
    ensures
        forall|i: int|
            0 <= i < spec_build_entries(records, opts).len() ==> (#[trigger] spec_build_entries(
                records,
                opts,
            )[i]).private_key is None,
    decreases records.len(),
{
    if records.len() == 0 {
    } else {
        lemma_public_only_omits_private(records.drop_first(), opts);
        let entries = spec_build_entries(records, opts);
        let rest = spec_build_entries(records.drop_first(), opts);
        assert forall|i: int| 0 <= i < entries.len() implies (#[trigger] entries[i]).private_key
            is None by {
            if spec_selected(opts.selected_keys, records[0].name) {
                if i > 0 {
                    assert(entries[i] == rest[i - 1]);
                }
            } else {
                assert(entries[i] == rest[i]);
            }
        }
    }
}

/// The export filter is exact: the entries are the selected records, in
/// order, and nothing else.
pub proof fn lemma_selection_filter_exact(records: Seq<RecordView>, opts: ExportOptionsView)
    ensures
        spec_build_entries(records, opts) == records.filter(
            |r: RecordView| spec_selected(opts.selected_keys, r.name),
        ).map_values(|r: RecordView| spec_entry_of_record(r, opts.include_public_only)),
    decreases records.len(),
{
    reveal(Seq::filter);
    let pred = |r: RecordView| spec_selected(opts.selected_keys, r.name);
    let f = |r: RecordView| spec_entry_of_record(r, opts.include_public_only);
    if records.len() == 0 {
        assert(spec_build_entries(records, opts) =~= records.filter(pred).map_values(f));
    } else {
        let shorter = records.drop_last();
        let last = records.last();
        lemma_selection_filter_exact(shorter, opts);
        assert(records =~= shorter.push(last));
        crate::backup::lemma_build_entries_push(shorter, last, opts);
        if pred(last) {
            assert(records.filter(pred) == shorter.filter(pred).push(last));
            assert(shorter.filter(pred).push(last).map_values(f) =~= shorter.filter(
                pred,
            ).map_values(f).push(f(last)));
            assert(spec_build_entries(records, opts) =~= records.filter(pred).map_values(f));
        } else {
            assert(records.filter(pred) == shorter.filter(pred));
            assert(spec_build_entries(records, opts) =~= records.filter(pred).map_values(f));
        }
    }
}

/// A dry run is free of effects: carrying its plan out changes no store at
/// all, because the plan holds no bytes.
pub proof fn lemma_dry_run_is_pure(
    store: Map<Seq<char>, Seq<u8>>,
    entries: Seq<EntryView>,
    dom: Set<Seq<char>>,
    strategy: MergeStrategy,
    suffix: Seq<char>,
)
    ensures
        spec_apply_plan(
            store,
            spec_plan(entries, dom, ImportOptions { merge_strategy: strategy, dry_run: true }, suffix),
        ) == store,
    decreases entries.len(),
{
    let opts = ImportOptions { merge_strategy: strategy, dry_run: true };
    let plan = spec_plan(entries, dom, opts, suffix);
    if entries.len() == 0 {
    } else {
        assert(plan[0] == spec_plan_entry(
            entries[0],
            spec_store_has(dom, entries[0].name),
            opts,
            suffix,
        ));
        assert(spec_apply_entry(store, plan[0]) == store);
        lemma_plan_drop_first(entries, dom, opts, suffix);
        lemma_dry_run_is_pure(store, entries.drop_first(), dom, strategy, suffix);
    }
}

/// A dry run's report puts the same names in the same buckets as a live run
/// whose writes all land, with one exception: an entry imported by renaming
/// is reported as the intended pattern rather than the concrete derived
/// name, since no write pinned the suffix down.
pub proof fn lemma_dry_run_report_matches_real(
    entries: Seq<EntryView>,
    dom: Set<Seq<char>>,
    strategy: MergeStrategy,
    suffix: Seq<char>,
)
    ensures
        ({
            let dry = spec_plan(
                entries,
                dom,
                ImportOptions { merge_strategy: strategy, dry_run: true },
                suffix,
            );
            let live = spec_plan(
                entries,
                dom,
                ImportOptions { merge_strategy: strategy, dry_run: false },
                suffix,
            );
            &&& spec_skipped_of(dry) == spec_skipped_of(live)
            &&& spec_overwritten_of(dry) == spec_overwritten_of(live)
            &&& spec_imported_of(dry).len() == spec_imported_of(live).len()
            &&& forall|k: int|
                0 <= k < spec_imported_of(dry).len() ==> #[trigger] spec_imported_of(dry)[k]
                    == spec_imported_of(live)[k] || (exists|i: int|
                    0 <= i < entries.len() && spec_imported_of(dry)[k] == spec_dry_rename_label(
                        (#[trigger] entries[i]).name,
                    ) && spec_imported_of(live)[k] == spec_rename_target(entries[i].name, suffix))
        }),
    decreases entries.len(),
{
    let dopts = ImportOptions { merge_strategy: strategy, dry_run: true };
    let ropts = ImportOptions { merge_strategy: strategy, dry_run: false };
    let dry = spec_plan(entries, dom, dopts, suffix);
    let live = spec_plan(entries, dom, ropts, suffix);
    if entries.len() == 0 {
    } else {
        lemma_plan_drop_first(entries, dom, dopts, suffix);
        lemma_plan_drop_first(entries, dom, ropts, suffix);
        lemma_dry_run_report_matches_real(entries.drop_first(), dom, strategy, suffix);
        let dtail = spec_plan(entries.drop_first(), dom, dopts, suffix);
        let rtail = spec_plan(entries.drop_first(), dom, ropts, suffix);
        assert(dry[0] == spec_plan_entry(entries[0], spec_store_has(dom, entries[0].name), dopts, suffix));
        assert(live[0] == spec_plan_entry(entries[0], spec_store_has(dom, entries[0].name), ropts, suffix));
        assert(dry[0].action == live[0].action);
        assert(spec_skipped_of(dry) =~= spec_skipped_of(live));
        assert(spec_overwritten_of(dry) =~= spec_overwritten_of(live));
        let dhead: Seq<Seq<char>> = if dry[0].action is Import || dry[0].action is RenameImport {
            seq![dry[0].label]
        } else {
            Seq::empty()
        };
        let rhead: Seq<Seq<char>> = if live[0].action is Import || live[0].action is RenameImport {
            seq![live[0].label]
        } else {
            Seq::empty()
        };
        assert(dhead.len() == rhead.len());
        assert forall|k: int|
            0 <= k < spec_imported_of(dry).len() implies #[trigger] spec_imported_of(dry)[k]
                == spec_imported_of(live)[k] || (exists|i: int|
                0 <= i < entries.len() && spec_imported_of(dry)[k] == spec_dry_rename_label(
                    (#[trigger] entries[i]).name,
                ) && spec_imported_of(live)[k] == spec_rename_target(
                    entries[i].name,
                    suffix,
                )) by {
            if k < dhead.len() {
                if dry[0].action is RenameImport {
                    assert(spec_imported_of(dry)[k] == spec_dry_rename_label(entries[0].name));
                    assert(spec_imported_of(live)[k] == spec_rename_target(entries[0].name, suffix));
                } else {
                    assert(spec_imported_of(dry)[k] == entries[0].name);
                    assert(spec_imported_of(live)[k] == entries[0].name);
                }
            } else {
                let k2 = k - dhead.len();
                assert(spec_imported_of(dry)[k] == spec_imported_of(dtail)[k2]);
                assert(spec_imported_of(live)[k] == spec_imported_of(rtail)[k2]);
                if spec_imported_of(dtail)[k2] != spec_imported_of(rtail)[k2] {
                    let i = choose|i: int|
                        0 <= i < entries.drop_first().len() && spec_imported_of(dtail)[k2]
                            == spec_dry_rename_label(entries.drop_first()[i].name)
                            && spec_imported_of(rtail)[k2] == spec_rename_target(
                            entries.drop_first()[i].name,
                            suffix,
                        );
                    assert(entries.drop_first()[i] == entries[i + 1]);
                    assert(spec_imported_of(dry)[k] == spec_dry_rename_label(
                        entries[i + 1].name,
                    ) && spec_imported_of(live)[k] == spec_rename_target(
                        entries[i + 1].name,
                        suffix,
                    ));
                }
            }
        }
    }
}

/// The lengths and first characters of the two literals that derived file
/// names are built from.
proof fn proof_strlit_facts()
    ensures
        "_"@.len() == 1 && "_"@[0] == '_',
        ".pub"@.len() == 4 && ".pub"@[0] == '.',
{
    reveal_strlit("_");
    reveal_strlit(".pub");
}

/// Under the skipping strategy nothing already in the destination is ever
/// touched: every file whose name the plan was decided against keeps its
/// bytes, and every entry whose name was taken is reported as skipped.
pub proof fn lemma_skip_never_overwrites(
    store: Map<Seq<char>, Seq<u8>>,
    dom: Set<Seq<char>>,
    entries: Seq<EntryView>,
    dry_run: bool,
    suffix: Seq<char>,
)
    ensures
        ({
            let opts = ImportOptions { merge_strategy: MergeStrategy::SkipExisting, dry_run };
            let plan = spec_plan(entries, dom, opts, suffix);
            let fin = spec_apply_plan(store, plan);
            &&& forall|n: Seq<char>|
                dom.contains(n) && #[trigger] store.contains_key(n) ==> fin.contains_key(n)
                    && fin[n] == store[n]
            &&& forall|i: int|
                0 <= i < entries.len() && spec_store_has(dom, (#[trigger] entries[i]).name)
                    ==> spec_skipped_of(plan).contains(entries[i].name)
        }),
    decreases entries.len(),
{
    let opts = ImportOptions { merge_strategy: MergeStrategy::SkipExisting, dry_run };
    let plan = spec_plan(entries, dom, opts, suffix);
    let fin = spec_apply_plan(store, plan);
    if entries.len() == 0 {
    } else {
        let p0 = plan[0];
        assert(p0 == spec_plan_entry(entries[0], spec_store_has(dom, entries[0].name), opts, suffix));
        let store1 = spec_apply_entry(store, p0);
        lemma_plan_drop_first(entries, dom, opts, suffix);
        lemma_skip_never_overwrites(store1, dom, entries.drop_first(), dry_run, suffix);
        let tail_plan = spec_plan(entries.drop_first(), dom, opts, suffix);
        assert(fin == spec_apply_plan(store1, tail_plan));
        assert forall|n: Seq<char>|
            dom.contains(n) && #[trigger] store.contains_key(n) implies fin.contains_key(n)
                && fin[n] == store[n] by {
            if spec_store_has(dom, entries[0].name) || dry_run {
                assert(p0.private_key is None && p0.public_key is None);
            } else {
                assert(p0.target == entries[0].name);
                assert(!dom.contains(p0.target));
                assert(!dom.contains(p0.target + ".pub"@));
                assert(n != p0.target);
                assert(n != p0.target + ".pub"@);
            }
            assert(store1.contains_key(n) && store1[n] == store[n]);
            let fin_tail = spec_apply_plan(store1, tail_plan);
            assert(fin_tail.contains_key(n) && fin_tail[n] == store1[n]);
        }
        assert forall|i: int|
            0 <= i < entries.len() && spec_store_has(dom, (#[trigger] entries[i]).name)
                implies spec_skipped_of(plan).contains(entries[i].name) by {
            if i == 0 {
                assert(p0.action is Skip && p0.label == entries[0].name);
                assert(spec_skipped_of(plan)[0] == entries[0].name);
            } else {
                assert(entries.drop_first()[i - 1] == entries[i]);
                assert(spec_skipped_of(tail_plan).contains(entries[i].name));
                let k = choose|k: int|
                    0 <= k < spec_skipped_of(tail_plan).len() && spec_skipped_of(tail_plan)[k]
                        == entries[i].name;
                let head_len = spec_skipped_of(plan).len() - spec_skipped_of(tail_plan).len();
                assert(spec_skipped_of(plan)[k + head_len] == entries[i].name);
            }
        }
    }
}

/// Overwriting replaces content: importing one entry whose name is taken,
/// under the overwriting strategy, puts the entry's bytes at the name's
/// files and reports the name as overwritten.
pub proof fn lemma_overwrite_replaces_content(
    store: Map<Seq<char>, Seq<u8>>,
    e: EntryView,
    suffix: Seq<char>,
)
    requires
        spec_store_has(store.dom(), e.name),
    ensures
        ({
            let opts = ImportOptions { merge_strategy: MergeStrategy::Overwrite, dry_run: false };
            let plan = spec_plan(seq![e], store.dom(), opts, suffix);
            let fin = spec_apply_plan(store, plan);
            let rep = spec_report(plan, spec_none_outcomes(1));
            &&& (e.private_key matches Some(b) ==> fin.contains_key(e.name) && fin[e.name] == b)
            &&& (e.public_key matches Some(b) ==> fin.contains_key(e.name + ".pub"@) && fin[e.name
                + ".pub"@] == b)
            &&& rep.overwritten == seq![e.name]
            &&& rep.imported.len() == 0 && rep.skipped.len() == 0 && rep.errors.len() == 0
        }),
{
    let opts = ImportOptions { merge_strategy: MergeStrategy::Overwrite, dry_run: false };
    let plan = spec_plan(seq![e], store.dom(), opts, suffix);
    let p0 = plan[0];
    assert(p0 == spec_plan_entry(e, spec_store_has(store.dom(), e.name), opts, suffix));
    assert(plan.len() == 1);
    assert(plan.drop_first() =~= Seq::<PlanEntryView>::empty());
    let fin = spec_apply_plan(store, plan);
    assert(fin == spec_apply_plan(spec_apply_entry(store, plan[0]), plan.drop_first()));
    assert(spec_apply_plan(spec_apply_entry(store, p0), Seq::<PlanEntryView>::empty())
        == spec_apply_entry(store, p0));
    assert(fin == spec_apply_entry(store, p0));
    assert(e.name + ".pub"@ != e.name) by {
        reveal_strlit(".pub");
        assert((e.name + ".pub"@).len() > e.name.len());
    }
    lemma_report_buckets(plan);
    assert(spec_none_outcomes(plan.len()) =~= spec_none_outcomes(1));
    assert(p0.action is Overwrite);
    assert(p0.label == e.name);
    assert(spec_overwritten_of(plan.drop_first()) =~= Seq::<Seq<char>>::empty());
    assert(spec_imported_of(plan.drop_first()) =~= Seq::<Seq<char>>::empty());
    assert(spec_skipped_of(plan.drop_first()) =~= Seq::<Seq<char>>::empty());
    assert(spec_overwritten_of(plan) =~= seq![e.name]);
    assert(spec_imported_of(plan) =~= Seq::<Seq<char>>::empty());
    assert(spec_skipped_of(plan) =~= Seq::<Seq<char>>::empty());
}

/// A renamed import never collides with the original: the taken name's
/// files keep their bytes, the entry's bytes land under a derived name that
/// differs from the original, and the derived name is reported as imported.
pub proof fn lemma_rename_never_collides(
    store: Map<Seq<char>, Seq<u8>>,
    e: EntryView,
    suffix: Seq<char>,
)
    requires
        spec_store_has(store.dom(), e.name),
    ensures
        ({
            let opts = ImportOptions { merge_strategy: MergeStrategy::Rename, dry_run: false };
            let plan = spec_plan(seq![e], store.dom(), opts, suffix);
            let fin = spec_apply_plan(store, plan);
            let rep = spec_report(plan, spec_none_outcomes(1));
            let target = spec_rename_target(e.name, suffix);
            &&& target != e.name
            &&& (store.contains_key(e.name) ==> fin.contains_key(e.name) && fin[e.name]
                == store[e.name])
            &&& (store.contains_key(e.name + ".pub"@) ==> fin.contains_key(e.name + ".pub"@)
                && fin[e.name + ".pub"@] == store[e.name + ".pub"@])
            &&& (e.private_key matches Some(b) ==> fin.contains_key(target) && fin[target] == b)
            &&& (e.public_key matches Some(b) ==> fin.contains_key(target + ".pub"@) && fin[target
                + ".pub"@] == b)
            &&& rep.imported == seq![target]
            &&& rep.skipped.len() == 0 && rep.overwritten.len() == 0 && rep.errors.len() == 0
        }),
{
    let opts = ImportOptions { merge_strategy: MergeStrategy::Rename, dry_run: false };
    let plan = spec_plan(seq![e], store.dom(), opts, suffix);
    let p0 = plan[0];
    assert(p0 == spec_plan_entry(e, spec_store_has(store.dom(), e.name), opts, suffix));
    assert(plan.len() == 1);
    assert(plan.drop_first() =~= Seq::<PlanEntryView>::empty());
    let fin = spec_apply_plan(store, plan);
    assert(fin == spec_apply_plan(spec_apply_entry(store, plan[0]), plan.drop_first()));
    assert(spec_apply_plan(spec_apply_entry(store, p0), Seq::<PlanEntryView>::empty())
        == spec_apply_entry(store, p0));
    assert(fin == spec_apply_entry(store, p0));
    let target = spec_rename_target(e.name, suffix);
    proof_strlit_facts();
    assert(target.len() > e.name.len());
    assert(target + ".pub"@ != e.name) by {
        assert((target + ".pub"@).len() > e.name.len());
    }
    assert(target + ".pub"@ != e.name + ".pub"@) by {
        if target + ".pub"@ == e.name + ".pub"@ {
            assert((target + ".pub"@).len() != (e.name + ".pub"@).len());
        }
    }
    assert(target != e.name + ".pub"@) by {
        reveal_strlit("_");
        reveal_strlit(".pub");
        if target.len() == (e.name + ".pub"@).len() {
            assert(target[e.name.len() as int] == '_');
            assert((e.name + ".pub"@)[e.name.len() as int] == '.');
        }
    }
    lemma_report_buckets(plan);
    assert(spec_none_outcomes(plan.len()) =~= spec_none_outcomes(1));
    assert(p0.action is RenameImport);
    assert(p0.label == target);
    assert(spec_overwritten_of(plan.drop_first()) =~= Seq::<Seq<char>>::empty());
    assert(spec_imported_of(plan.drop_first()) =~= Seq::<Seq<char>>::empty());
    assert(spec_skipped_of(plan.drop_first()) =~= Seq::<Seq<char>>::empty());
    assert(spec_imported_of(plan) =~= seq![target]);
    assert(spec_skipped_of(plan) =~= Seq::<Seq<char>>::empty());
    assert(spec_overwritten_of(plan) =~= Seq::<Seq<char>>::empty());
}


/// Appending the same tail to two different strings keeps them different.
proof fn lemma_append_cancel_right(a: Seq<char>, b: Seq<char>, x: Seq<char>)
    requires
        a + x == b + x,
    ensures
        a == b,
{
    assert((a + x).len() == a.len() + x.len());
    assert((b + x).len() == b.len() + x.len());
    assert(a.len() == b.len());
    assert forall|i: int| 0 <= i < a.len() implies a[i] == b[i] by {
        assert((a + x)[i] == a[i]);
        assert((b + x)[i] == b[i]);
    }
    assert(a =~= b);
}

/// No entry's writes target the file name `f`.
pub open spec fn spec_untouched(entries: Seq<EntryView>, f: Seq<char>) -> bool {
    forall|i: int|
        0 <= i < entries.len() ==> f != (#[trigger] entries[i]).name && f != entries[i].name
            + ".pub"@
}

/// One imported entry's files after a run: each present half sits at its
/// file, each absent half leaves that file exactly as the store had it.
pub open spec fn spec_entry_landed(
    store: Map<Seq<char>, Seq<u8>>,
    fin: Map<Seq<char>, Seq<u8>>,
    e: EntryView,
) -> bool {
    &&& (e.private_key matches Some(b) ==> fin.contains_key(e.name) && fin[e.name] == b)
    &&& (e.private_key is None ==> (fin.contains_key(e.name) <==> store.contains_key(e.name)) && (
    store.contains_key(e.name) ==> fin[e.name] == store[e.name]))
    &&& (e.public_key matches Some(b) ==> fin.contains_key(e.name + ".pub"@) && fin[e.name
        + ".pub"@] == b)
    &&& (e.public_key is None ==> (fin.contains_key(e.name + ".pub"@) <==> store.contains_key(
        e.name + ".pub"@,
    )) && (store.contains_key(e.name + ".pub"@) ==> fin[e.name + ".pub"@] == store[e.name
        + ".pub"@]))
}

/// When every entry's name is free in the destination, every entry is
/// imported under its own name: the report's imported bucket is exactly the
/// entry names, in order, and the other buckets are empty.
pub proof fn lemma_fresh_plan_buckets(
    entries: Seq<EntryView>,
    dom: Set<Seq<char>>,
    opts: ImportOptions,
    suffix: Seq<char>,
)
    requires
        forall|i: int| 0 <= i < entries.len() ==> !spec_store_has(dom, (#[trigger] entries[i]).name),
    ensures
        spec_imported_of(spec_plan(entries, dom, opts, suffix)) == entries.map_values(
            |e: EntryView| e.name,
        ),
        spec_skipped_of(spec_plan(entries, dom, opts, suffix)).len() == 0,
        spec_overwritten_of(spec_plan(entries, dom, opts, suffix)).len() == 0,
    decreases entries.len(),
{
    let plan = spec_plan(entries, dom, opts, suffix);
    let names = entries.map_values(|e: EntryView| e.name);
    if entries.len() == 0 {
        assert(spec_imported_of(plan) =~= names);
    } else {
        assert(plan[0] == spec_plan_entry(entries[0], spec_store_has(dom, entries[0].name), opts, suffix));
        assert(plan[0].action is Import);
        assert(plan[0].label == entries[0].name);
        lemma_plan_drop_first(entries, dom, opts, suffix);
        assert(forall|i: int|
            0 <= i < entries.drop_first().len() ==> !spec_store_has(
                dom,
                (#[trigger] entries.drop_first()[i]).name,
            ));
        lemma_fresh_plan_buckets(entries.drop_first(), dom, opts, suffix);
        assert(spec_imported_of(plan) =~= names) by {
            assert(spec_imported_of(plan) == seq![entries[0].name] + spec_imported_of(
                plan.drop_first(),
            ));
            assert(entries.drop_first().map_values(|e: EntryView| e.name) =~= names.drop_first());
        }
    }
}

/// Importing entries whose names are all free, pairwise distinct, and never
/// one another's public-half file names: every file not named by an entry is
/// untouched, and every entry's halves land at its own files.
pub proof fn lemma_import_into_fresh(
    store: Map<Seq<char>, Seq<u8>>,
    dom: Set<Seq<char>>,
    entries: Seq<EntryView>,
    opts: ImportOptions,
    suffix: Seq<char>,
)
    requires
        !opts.dry_run,
        forall|i: int| 0 <= i < entries.len() ==> !spec_store_has(dom, (#[trigger] entries[i]).name),
        forall|i: int, j: int|
            #![trigger entries[i].name, entries[j].name]
            0 <= i < entries.len() && 0 <= j < entries.len() && i != j ==> entries[i].name
                != entries[j].name,
        forall|i: int, j: int|
            #![trigger entries[i].name, entries[j].name]
            0 <= i < entries.len() && 0 <= j < entries.len() && i != j ==> entries[i].name
                + ".pub"@ != entries[j].name,
    ensures
        ({
            let fin = spec_apply_plan(store, spec_plan(entries, dom, opts, suffix));
            &&& forall|f: Seq<char>|
                #[trigger] spec_untouched(entries, f) ==> (fin.contains_key(f)
                    <==> store.contains_key(f)) && (store.contains_key(f) ==> fin[f] == store[f])
            &&& forall|i: int|
                0 <= i < entries.len() ==> spec_entry_landed(store, fin, #[trigger] entries[i])
        }),
    decreases entries.len(),
{
    let plan = spec_plan(entries, dom, opts, suffix);
    let fin = spec_apply_plan(store, plan);
    if entries.len() == 0 {
        assert(fin == store);
    } else {
        proof_strlit_facts();
        let e0 = entries[0];
        assert(plan[0] == spec_plan_entry(e0, spec_store_has(dom, e0.name), opts, suffix));
        let p0 = plan[0];
        assert(p0.action is Import && p0.target == e0.name && p0.label == e0.name);
        assert(p0.private_key == e0.private_key && p0.public_key == e0.public_key);
        let store1 = spec_apply_entry(store, p0);
        let rest = entries.drop_first();
        lemma_plan_drop_first(entries, dom, opts, suffix);
        assert(fin == spec_apply_plan(store1, spec_plan(rest, dom, opts, suffix)));
        assert forall|i: int|
            0 <= i < rest.len() implies !spec_store_has(dom, (#[trigger] rest[i]).name) by {
            assert(rest[i] == entries[i + 1]);
        }
        assert forall|i: int, j: int|
            #![trigger rest[i].name, rest[j].name]
            0 <= i < rest.len() && 0 <= j < rest.len() && i != j implies rest[i].name
                != rest[j].name && rest[i].name + ".pub"@ != rest[j].name by {
            assert(rest[i] == entries[i + 1]);
            assert(rest[j] == entries[j + 1]);
        }
        lemma_import_into_fresh(store1, dom, rest, opts, suffix);
        let fin_tail = spec_apply_plan(store1, spec_plan(rest, dom, opts, suffix));

        // Entry zero's two file names differ, and nothing later writes them.
        assert(e0.name + ".pub"@ != e0.name) by {
            assert((e0.name + ".pub"@).len() > e0.name.len());
        }
        assert(spec_untouched(rest, e0.name)) by {
            assert forall|i: int|
                0 <= i < rest.len() implies e0.name != (#[trigger] rest[i]).name && e0.name
                    != rest[i].name + ".pub"@ by {
                assert(rest[i] == entries[i + 1]);
                assert(entries[i + 1].name + ".pub"@ != entries[0].name);
            }
        }
        assert(spec_untouched(rest, e0.name + ".pub"@)) by {
            assert forall|i: int|
                0 <= i < rest.len() implies e0.name + ".pub"@ != (#[trigger] rest[i]).name
                    && e0.name + ".pub"@ != rest[i].name + ".pub"@ by {
                assert(rest[i] == entries[i + 1]);
                assert(entries[0].name + ".pub"@ != entries[i + 1].name);
                if e0.name + ".pub"@ == entries[i + 1].name + ".pub"@ {
                    lemma_append_cancel_right(e0.name, entries[i + 1].name, ".pub"@);
                }
            }
        }

        // Files untouched by every entry pass through both steps unchanged.
        assert forall|f: Seq<char>|
            #[trigger] spec_untouched(entries, f) implies (fin.contains_key(f)
                <==> store.contains_key(f)) && (store.contains_key(f) ==> fin[f] == store[f]) by {
            assert(f != e0.name && f != e0.name + ".pub"@);
            assert(store1.contains_key(f) <==> store.contains_key(f));
            assert(store.contains_key(f) ==> store1[f] == store[f]);
            assert(spec_untouched(rest, f)) by {
                assert forall|i: int|
                    0 <= i < rest.len() implies f != (#[trigger] rest[i]).name && f != rest[i].name
                        + ".pub"@ by {
                    assert(rest[i] == entries[i + 1]);
                }
            }
            assert((fin_tail.contains_key(f) <==> store1.contains_key(f)) && (store1.contains_key(
                f,
            ) ==> fin_tail[f] == store1[f]));
        }

        // Every entry's halves land: entry zero's in the first step, the
        // rest by induction, each transferred across the other step.
        assert forall|i: int|
            0 <= i < entries.len() implies spec_entry_landed(store, fin, #[trigger] entries[i]) by {
            if i == 0 {
                assert(spec_entry_landed(store, store1, e0));
                assert((fin_tail.contains_key(e0.name) <==> store1.contains_key(e0.name)) && (
                store1.contains_key(e0.name) ==> fin_tail[e0.name] == store1[e0.name]));
                assert((fin_tail.contains_key(e0.name + ".pub"@) <==> store1.contains_key(
                    e0.name + ".pub"@,
                )) && (store1.contains_key(e0.name + ".pub"@) ==> fin_tail[e0.name + ".pub"@]
                    == store1[e0.name + ".pub"@]));
            } else {
                let e = entries[i];
                assert(rest[i - 1] == e);
                assert(spec_entry_landed(store1, fin, e));
                // Entry zero's writes do not touch this entry's files.
                assert(e.name != e0.name);
                assert(e.name != e0.name + ".pub"@) by {
                    assert(entries[0].name + ".pub"@ != entries[i].name);
                }
                assert(e.name + ".pub"@ != e0.name) by {
                    assert(entries[i].name + ".pub"@ != entries[0].name);
                }
                assert(e.name + ".pub"@ != e0.name + ".pub"@) by {
                    if e.name + ".pub"@ == e0.name + ".pub"@ {
                        lemma_append_cancel_right(e.name, e0.name, ".pub"@);
                    }
                }
                assert(store1.contains_key(e.name) <==> store.contains_key(e.name));
                assert(store.contains_key(e.name) ==> store1[e.name] == store[e.name]);
                assert(store1.contains_key(e.name + ".pub"@) <==> store.contains_key(
                    e.name + ".pub"@,
                ));
                assert(store.contains_key(e.name + ".pub"@) ==> store1[e.name + ".pub"@] == store[
                    e.name + ".pub"@
                ]);
            }
        }
    }
}

/// With no selection, every record is exported, in order.
proof fn lemma_build_all(records: Seq<RecordView>, opts: ExportOptionsView)
    requires
        opts.selected_keys is None,
    ensures
        spec_build_entries(records, opts) == records.map_values(
            |r: RecordView| spec_entry_of_record(r, opts.include_public_only),
        ),
    decreases records.len(),
{
    let f = |r: RecordView| spec_entry_of_record(r, opts.include_public_only);
    if records.len() == 0 {
        assert(spec_build_entries(records, opts) =~= records.map_values(f));
    } else {
        lemma_build_all(records.drop_first(), opts);
        assert(spec_build_entries(records, opts) =~= records.map_values(f)) by {
            assert(records.drop_first().map_values(f) =~= records.map_values(f).drop_first());
        }
    }
}

/// The round trip: exporting any records whose names are pairwise distinct
/// and never one another's public-half file names, and importing the result
/// into an empty destination, imports every record under its own name, skips
/// and overwrites nothing, fails on nothing, and lands every half's bytes
/// exactly where the record had them. The public-half condition is the
/// property's own corner: were one record named `N` and another `N.pub`, the
/// second record's private file would be the first one's public file, and
/// the bytes could not all come back.
pub proof fn lemma_round_trip(
    records: Seq<RecordView>,
    opts: ExportOptionsView,
    env: EnvironmentView,
    iopts: ImportOptions,
    suffix: Seq<char>,
)
    requires
        opts.selected_keys is None,
        !iopts.dry_run,
        container_fits(spec_export_container(records, opts, env)),
        forall|i: int, j: int|
            #![trigger records[i].name, records[j].name]
            0 <= i < records.len() && 0 <= j < records.len() && i != j ==> records[i].name
                != records[j].name,
        forall|i: int, j: int|
            #![trigger records[i].name, records[j].name]
            0 <= i < records.len() && 0 <= j < records.len() && i != j ==> records[i].name
                + ".pub"@ != records[j].name,
        forall|i: int|
            0 <= i < records.len() ==> (#[trigger] records[i]).name + ".pub"@ != records[i].name,
    ensures
        ({
            let c = spec_export_container(records, opts, env);
            let plan = spec_plan(c.keys, Set::empty(), iopts, suffix);
            let rep = spec_report(plan, spec_none_outcomes(c.keys.len()));
            let fin = spec_apply_plan(Map::empty(), plan);
            &&& spec_decode(spec_encode(c)) == Some(c)
            &&& c.keys.len() == records.len()
            &&& rep.imported == records.map_values(|r: RecordView| r.name)
            &&& rep.skipped.len() == 0 && rep.overwritten.len() == 0 && rep.errors.len() == 0
            &&& forall|i: int|
                0 <= i < records.len() ==> {
                    let rec = #[trigger] records[i];
                    &&& (!opts.include_public_only ==> (rec.private_key matches Some(b)
                        ==> fin.contains_key(rec.name) && fin[rec.name] == b))
                    &&& (opts.include_public_only || rec.private_key is None
                        ==> !fin.contains_key(rec.name))
                    &&& (rec.public_key matches Some(b) ==> fin.contains_key(rec.name + ".pub"@)
                        && fin[rec.name + ".pub"@] == b)
                    &&& (rec.public_key is None ==> !fin.contains_key(rec.name + ".pub"@))
                }
        }),
{
    let c = spec_export_container(records, opts, env);
    let entries = c.keys;
    let plan = spec_plan(entries, Set::empty(), iopts, suffix);
    let fin = spec_apply_plan(Map::empty(), plan);
    crate::codec::lemma_decode_encode(c);
    lemma_build_all(records, opts);
    let f = |r: RecordView| spec_entry_of_record(r, opts.include_public_only);
    assert(entries == records.map_values(f));
    assert(entries.len() == records.len());
    assert forall|i: int| 0 <= i < entries.len() implies (#[trigger] entries[i]).name == records[
        i
    ].name by {
        assert(entries[i] == f(records[i]));
    }
    assert forall|i: int|
        0 <= i < entries.len() implies !spec_store_has(
        Set::empty(),
        (#[trigger] entries[i]).name,
    ) by {
        assert(!Set::<Seq<char>>::empty().contains(entries[i].name));
        assert(!Set::<Seq<char>>::empty().contains(entries[i].name + ".pub"@));
    }
    assert forall|i: int, j: int|
        #![trigger entries[i].name, entries[j].name]
        0 <= i < entries.len() && 0 <= j < entries.len() && i != j implies entries[i].name
            != entries[j].name && entries[i].name + ".pub"@ != entries[j].name by {
        assert(entries[i].name == records[i].name);
        assert(entries[j].name == records[j].name);
    }
    lemma_import_into_fresh(Map::empty(), Set::empty(), entries, iopts, suffix);
    lemma_fresh_plan_buckets(entries, Set::empty(), iopts, suffix);
    lemma_report_buckets(plan);
    assert(entries.map_values(|e: EntryView| e.name) =~= records.map_values(
        |r: RecordView| r.name,
    ));
    assert forall|i: int|
        0 <= i < records.len() implies {
            let rec = #[trigger] records[i];
            &&& (!opts.include_public_only ==> (rec.private_key matches Some(b)
                ==> fin.contains_key(rec.name) && fin[rec.name] == b))
            &&& (opts.include_public_only || rec.private_key is None ==> !fin.contains_key(
                rec.name,
            ))
            &&& (rec.public_key matches Some(b) ==> fin.contains_key(rec.name + ".pub"@)
                && fin[rec.name + ".pub"@] == b)
            &&& (rec.public_key is None ==> !fin.contains_key(rec.name + ".pub"@))
        } by {
        assert(spec_entry_landed(Map::empty(), fin, entries[i]));
        assert(entries[i] == f(records[i]));
        assert(!Map::<Seq<char>, Seq<u8>>::empty().contains_key(records[i].name));
        assert(!Map::<Seq<char>, Seq<u8>>::empty().contains_key(records[i].name + ".pub"@));
    }
}

} // verus!
