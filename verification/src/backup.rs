//! Export and import of encrypted key backups, and the merge resolver that
//! decides what happens when an imported name is already taken.
//!
//! Nothing here touches a file system. Exporting turns key records into an
//! encrypted container of bytes; importing turns such bytes, together with a
//! listing of the destination's current file names, into a *plan*: one
//! decided action per entry, with the exact bytes each action writes. The
//! caller carries the plan out (or, for a dry run, does not), reports each
//! entry's outcome, and [`build_report`] turns the outcomes into the final
//! import report. [`crate::store::KeyStore`] is an in-memory key directory
//! used to state and test what a carried-out plan does.

use vstd::prelude::*;

use crate::codec;
use crate::codec::{
    BackupData, BackupEntry, BackupMetadata, ContainerView, EntryView, entries_view, spec_decode,
    spec_encode, BACKUP_VERSION,
};
use crate::encrypt::{envelope_plaintext, is_age_envelope, EncryptionManager};
use crate::error::SkmError;
use crate::keys::{records_view, spec_key_type_label, KeyRecord, RecordView};
use crate::text::{name_list_contains, names_contain, views_of};

verus! {

/// What an export includes: an optional free-text description, whether
/// private halves are left out, and an optional selection of names (`None`
/// exports every record).
pub struct ExportOptions {
    pub description: Option<String>,
    pub include_public_only: bool,
    pub selected_keys: Option<Vec<String>>,
}

/// Mathematical image of [`ExportOptions`].
#[verifier::ext_equal]
pub struct ExportOptionsView {
    pub description: Option<Seq<char>>,
    pub include_public_only: bool,
    pub selected_keys: Option<Seq<Seq<char>>>,
}

impl View for ExportOptions {
    type V = ExportOptionsView;

    open spec fn view(&self) -> ExportOptionsView {
        ExportOptionsView {
            description: match self.description {
                Option::Some(d) => Option::Some(d@),
                Option::None => Option::None,
            },
            include_public_only: self.include_public_only,
            selected_keys: match self.selected_keys {
                Option::Some(ref v) => Option::Some(views_of(v@)),
                Option::None => Option::None,
            },
        }
    }
}

impl Default for ExportOptions {
    /// Everything in: all records, both halves, no description.
    fn default() -> (r: Self)
        ensures
            r.description is None,
            !r.include_public_only,
            r.selected_keys is None,
    {
        ExportOptions { description: None, include_public_only: false, selected_keys: None }
    }
}

/// What to do when an imported name is already taken in the destination.
#[derive(Clone, Copy, PartialEq, Eq, Structural, Debug)]
pub enum MergeStrategy {
    /// Leave the existing key alone and record the entry as skipped.
    SkipExisting,
    /// Replace the existing files with the entry's bytes.
    Overwrite,
    /// Import under a derived name and leave the existing files alone.
    Rename,
}

/// How an import behaves: one strategy for every conflicting entry, and
/// whether this is a dry run that must not write anything.
#[derive(Clone, Copy, PartialEq, Eq, Structural, Debug)]
pub struct ImportOptions {
    pub merge_strategy: MergeStrategy,
    pub dry_run: bool,
}

impl Default for ImportOptions {
    /// Skip conflicting entries; really import.
    fn default() -> (r: Self)
        ensures
            r.merge_strategy == MergeStrategy::SkipExisting,
            !r.dry_run,
    {
        ImportOptions { merge_strategy: MergeStrategy::SkipExisting, dry_run: false }
    }
}

/// The per-entry outcome of one import, in container order: names imported
/// (for renames, the name reported), names skipped, names overwritten, and
/// per-entry failures with their descriptions.
pub struct ImportReport {
    pub imported: Vec<String>,
    pub skipped: Vec<String>,
    pub overwritten: Vec<String>,
    pub errors: Vec<(String, String)>,
}

/// Mathematical image of [`ImportReport`].
#[verifier::ext_equal]
pub struct ReportView {
    pub imported: Seq<Seq<char>>,
    pub skipped: Seq<Seq<char>>,
    pub overwritten: Seq<Seq<char>>,
    pub errors: Seq<(Seq<char>, Seq<char>)>,
}

impl View for ImportReport {
    type V = ReportView;

    open spec fn view(&self) -> ReportView {
        ReportView {
            imported: views_of(self.imported@),
            skipped: views_of(self.skipped@),
            overwritten: views_of(self.overwritten@),
            errors: self.errors@.map_values(|p: (String, String)| (p.0@, p.1@)),
        }
    }
}

/// The four terminal outcomes the merge resolver can decide for one entry.
#[derive(Clone, Copy, PartialEq, Eq, Structural, Debug)]
pub enum MergeAction {
    /// The name is free: write the entry under its own name.
    Import,
    /// The name is taken and the strategy skips: write nothing.
    Skip,
    /// The name is taken and the strategy overwrites: write over it.
    Overwrite,
    /// The name is taken and the strategy renames: write under a derived
    /// name, leaving the existing files alone.
    RenameImport,
}

/// The merge resolver's whole decision table: a free name is always imported,
/// whatever the strategy; a taken name goes by the strategy.
pub open spec fn spec_resolve(exists: bool, strategy: MergeStrategy) -> MergeAction {
    if !exists {
        MergeAction::Import
    } else {
        match strategy {
            MergeStrategy::SkipExisting => MergeAction::Skip,
            MergeStrategy::Overwrite => MergeAction::Overwrite,
            MergeStrategy::Rename => MergeAction::RenameImport,
        }
    }
}

/// Decide one entry's action from whether its name is taken and the active
/// strategy.
pub fn resolve_action(exists: bool, strategy: MergeStrategy) -> (r: MergeAction)
    ensures
        r == spec_resolve(exists, strategy),
{
    if !exists {
        MergeAction::Import
    } else {
        match strategy {
            MergeStrategy::SkipExisting => MergeAction::Skip,
            MergeStrategy::Overwrite => MergeAction::Overwrite,
            MergeStrategy::Rename => MergeAction::RenameImport,
        }
    }
}

/// Whether a record's name passes the selection: no selection admits all.
pub open spec fn spec_selected(selected: Option<Seq<Seq<char>>>, name: Seq<char>) -> bool {
    match selected {
        Option::None => true,
        Option::Some(sel) => sel.contains(name),
    }
}

/// The entry a record becomes: the private half is dropped when only public
/// halves are exported.
pub open spec fn spec_entry_of_record(r: RecordView, public_only: bool) -> EntryView {
    EntryView {
        name: r.name,
        key_type: spec_key_type_label(r.key_type),
        comment: r.comment,
        private_key: if public_only {
            Option::None
        } else {
            r.private_key
        },
        public_key: r.public_key,
    }
}

/// The entries an export writes: the records whose names pass the selection,
/// in order, each turned into an entry.
pub open spec fn spec_build_entries(records: Seq<RecordView>, opts: ExportOptionsView) -> Seq<
    EntryView,
>
    decreases records.len(),
{
    if records.len() == 0 {
        Seq::empty()
    } else {
        let head: Seq<EntryView> = if spec_selected(opts.selected_keys, records[0].name) {
            seq![spec_entry_of_record(records[0], opts.include_public_only)]
        } else {
            Seq::empty()
        };
        head + spec_build_entries(records.drop_first(), opts)
    }
}

/// Building from one more record extends the entries of the ones before it.
pub proof fn lemma_build_entries_push(records: Seq<RecordView>, r: RecordView, opts: ExportOptionsView)
    ensures
        spec_build_entries(records.push(r), opts) == spec_build_entries(records, opts) + (
        if spec_selected(opts.selected_keys, r.name) {
            seq![spec_entry_of_record(r, opts.include_public_only)]
        } else {
            Seq::<EntryView>::empty()
        }),
    decreases records.len(),
{
    let tail: Seq<EntryView> = if spec_selected(opts.selected_keys, r.name) {
        seq![spec_entry_of_record(r, opts.include_public_only)]
    } else {
        Seq::empty()
    };
    if records.len() == 0 {
        assert(records.push(r).drop_first() =~= records);
        assert(spec_build_entries(records.push(r), opts) =~= spec_build_entries(records, opts)
            + tail);
    } else {
        assert(records.push(r).drop_first() =~= records.drop_first().push(r));
        lemma_build_entries_push(records.drop_first(), r, opts);
        assert(spec_build_entries(records.push(r), opts) =~= spec_build_entries(records, opts)
            + tail);
    }
}

/// A copy of a byte vector.
pub(crate) fn clone_bytes(v: &Vec<u8>) -> (r: Vec<u8>)
    ensures
        r@ == v@,
{
    let mut r: Vec<u8> = Vec::new();
    let mut i: usize = 0;
    while i < v.len()
        invariant
            i <= v@.len(),
            r@ == v@.take(i as int),
        decreases v@.len() - i,
    {
        r.push(v[i]);
        proof {
            assert(v@.take(i + 1 as int) =~= v@.take(i as int).push(v@[i as int]));
        }
        i += 1;
    }
    proof {
        assert(v@.take(v@.len() as int) =~= v@);
    }
    r
}

/// A copy of an optional byte vector.
fn clone_opt_bytes(v: &Option<Vec<u8>>) -> (r: Option<Vec<u8>>)
    ensures
        match v {
            Option::Some(b) => r matches Some(c) && c@ == b@,
            Option::None => r is None,
        },
{
    match v {
        Option::Some(b) => Some(clone_bytes(b)),
        Option::None => None,
    }
}

/// A copy of an optional string.
fn clone_opt_string(s: &Option<String>) -> (r: Option<String>)
    ensures
        match s {
            Option::Some(x) => r matches Some(c) && c@ == x@,
            Option::None => r is None,
        },
{
    match s {
        Option::Some(x) => Some(x.clone()),
        Option::None => None,
    }
}

/// Turn the records that pass the selection into container entries.
pub fn build_backup_entries(records: &Vec<KeyRecord>, options: &ExportOptions) -> (r: Vec<
    BackupEntry,
>)
    ensures
        entries_view(r@) == spec_build_entries(records_view(records@), options@),
{
    let mut out: Vec<BackupEntry> = Vec::new();
    let mut i: usize = 0;
    while i < records.len()
        invariant
            i <= records@.len(),
            entries_view(out@) == spec_build_entries(records_view(records@).take(i as int), options@),
        decreases records@.len() - i,
    {
        let record = &records[i];
        let selected = match &options.selected_keys {
            Option::Some(sel) => name_list_contains(sel, record.name.as_str()),
            Option::None => true,
        };
        let ghost entries_before = entries_view(out@);
        if selected {
            let entry = BackupEntry {
                name: record.name.clone(),
                key_type: String::from_str(record.key_type.label()),
                comment: clone_opt_string(&record.comment),
                private_key: if options.include_public_only {
                    None
                } else {
                    clone_opt_bytes(&record.private_key)
                },
                public_key: clone_opt_bytes(&record.public_key),
            };
            proof {
                assert(entry@ == spec_entry_of_record(record@, options@.include_public_only));
            }
            out.push(entry);
        }
        proof {
            let rv = records_view(records@);
            if selected {
                assert(entries_view(out@) =~= entries_before + seq![
                    spec_entry_of_record(rv[i as int], options@.include_public_only),
                ]);
            } else {
                assert(entries_view(out@) =~= entries_before + Seq::<EntryView>::empty());
            }
            assert(rv.take(i + 1 as int) =~= rv.take(i as int).push(rv[i as int]));
            lemma_build_entries_push(rv.take(i as int), rv[i as int], options@);
            match options@.selected_keys {
                Option::Some(sel) => {
                    assert(names_contain(match options.selected_keys {
                        Option::Some(ref v) => v@,
                        Option::None => Seq::empty(),
                    }, record.name@) == sel.contains(record.name@)) by {
                        let names = match options.selected_keys {
                            Option::Some(ref v) => v@,
                            Option::None => Seq::empty(),
                        };
                        if names_contain(names, record.name@) {
                            let j = choose|j: int|
                                0 <= j < names.len() && names[j]@ == record.name@;
                            assert(sel[j] == record.name@);
                        }
                        if sel.contains(record.name@) {
                            let j = choose|j: int| 0 <= j < sel.len() && sel[j] == record.name@;
                            assert(names[j]@ == record.name@);
                        }
                    }
                },
                Option::None => {},
            }
            assert(entries_view(out@) =~= spec_build_entries(rv.take(i + 1 as int), options@));
        }
        i += 1;
    }
    proof {
        let rv = records_view(records@);
        assert(rv.take(rv.len() as int) =~= rv);
    }
    out
}

/// The deterministic inputs that stamp a backup's metadata: the current
/// time and the machine's identity, supplied by the caller so that the
/// export itself stays a pure function of its arguments.
pub struct BackupEnvironment {
    /// Seconds since the Unix epoch.
    pub created_at: u64,
    pub hostname: String,
    pub username: String,
}

/// Mathematical image of [`BackupEnvironment`].
#[verifier::ext_equal]
pub struct EnvironmentView {
    pub created_at: u64,
    pub hostname: Seq<char>,
    pub username: Seq<char>,
}

impl View for BackupEnvironment {
    type V = EnvironmentView;

    open spec fn view(&self) -> EnvironmentView {
        EnvironmentView {
            created_at: self.created_at,
            hostname: self.hostname@,
            username: self.username@,
        }
    }
}

/// The container an export assembles: fresh metadata over the filtered
/// entries, with `key_count` equal to the number of entries written.
pub open spec fn spec_export_container(
    records: Seq<RecordView>,
    opts: ExportOptionsView,
    env: EnvironmentView,
) -> ContainerView {
    let entries = spec_build_entries(records, opts);
    ContainerView {
        metadata: codec::MetadataView {
            version: BACKUP_VERSION,
            created_at: env.created_at,
            hostname: env.hostname,
            username: env.username,
            key_count: entries.len() as u64,
            description: opts.description,
        },
        keys: entries,
    }
}

/// One decided entry of an import plan: the entry's own name, the name the
/// report records, the file stem any writes target, the decided action, and
/// the bytes to write. A skipped entry, and every entry of a dry run,
/// carries no bytes at all: carrying the plan out writes nothing for it.
pub struct PlannedEntry {
    pub name: String,
    pub label: String,
    pub target: String,
    pub action: MergeAction,
    pub private_key: Option<Vec<u8>>,
    pub public_key: Option<Vec<u8>>,
}

/// Mathematical image of [`PlannedEntry`].
#[verifier::ext_equal]
pub struct PlanEntryView {
    pub name: Seq<char>,
    pub label: Seq<char>,
    pub target: Seq<char>,
    pub action: MergeAction,
    pub private_key: Option<Seq<u8>>,
    pub public_key: Option<Seq<u8>>,
}

impl View for PlannedEntry {
    type V = PlanEntryView;

    open spec fn view(&self) -> PlanEntryView {
        PlanEntryView {
            name: self.name@,
            label: self.label@,
            target: self.target@,
            action: self.action,
            private_key: match self.private_key {
                Option::Some(ref b) => Option::Some(b@),
                Option::None => Option::None,
            },
            public_key: match self.public_key {
                Option::Some(ref b) => Option::Some(b@),
                Option::None => Option::None,
            },
        }
    }
}

/// The views of a plan.
pub open spec fn plan_view(plan: Seq<PlannedEntry>) -> Seq<PlanEntryView> {
    plan.map_values(|p: PlannedEntry| p@)
}

/// A name is taken in the destination if a file of that name, or of that
/// name with the `.pub` extension, is already there: either half suffices.
pub open spec fn spec_store_has(dom: Set<Seq<char>>, name: Seq<char>) -> bool {
    dom.contains(name) || dom.contains(name + ".pub"@)
}

/// The derived name a renamed import writes to.
pub open spec fn spec_rename_target(name: Seq<char>, suffix: Seq<char>) -> Seq<char> {
    name + "_"@ + suffix
}

/// What a dry run reports for a renamed import: the intended pattern, since
/// no write pins the suffix down.
pub open spec fn spec_dry_rename_label(name: Seq<char>) -> Seq<char> {
    name + " -> "@ + name + "_{timestamp}"@
}

/// The plan for one entry: resolve the action, derive the target and the
/// reported name, and keep the bytes only where something will be written.
pub open spec fn spec_plan_entry(
    e: EntryView,
    exists: bool,
    opts: ImportOptions,
    suffix: Seq<char>,
) -> PlanEntryView {
    let action = spec_resolve(exists, opts.merge_strategy);
    let target = if action is RenameImport {
        spec_rename_target(e.name, suffix)
    } else {
        e.name
    };
    let label = if action is RenameImport {
        if opts.dry_run {
            spec_dry_rename_label(e.name)
        } else {
            target
        }
    } else {
        e.name
    };
    let writes = !opts.dry_run && !(action is Skip);
    PlanEntryView {
        name: e.name,
        label,
        target,
        action,
        private_key: if writes {
            e.private_key
        } else {
            Option::None
        },
        public_key: if writes {
            e.public_key
        } else {
            Option::None
        },
    }
}

/// The whole plan: each entry decided against the destination's current file
/// names, strictly in container order.
pub open spec fn spec_plan(
    entries: Seq<EntryView>,
    dom: Set<Seq<char>>,
    opts: ImportOptions,
    suffix: Seq<char>,
) -> Seq<PlanEntryView> {
    entries.map_values(|e: EntryView| spec_plan_entry(e, spec_store_has(dom, e.name), opts, suffix))
}

/// Decide every entry of a decoded container against the file names already
/// present in the destination.
pub fn plan_import(
    data: &BackupData,
    existing_files: &Vec<String>,
    options: &ImportOptions,
    rename_suffix: &str,
) -> (r: Vec<PlannedEntry>)
    ensures
        plan_view(r@) == spec_plan(
            entries_view(data.keys@),
            views_of(existing_files@).to_set(),
            *options,
            rename_suffix@,
        ),
{
    let ghost entries = entries_view(data.keys@);
    let ghost dom = views_of(existing_files@).to_set();
    let mut plan: Vec<PlannedEntry> = Vec::new();
    let mut i: usize = 0;
    while i < data.keys.len()
        invariant
            i <= data.keys@.len(),
            entries == entries_view(data.keys@),
            dom == views_of(existing_files@).to_set(),
            plan@.len() == i,
            forall|k: int| 0 <= k < i ==> plan@[k]@ == spec_plan_entry(
                entries[k],
                spec_store_has(dom, entries[k].name),
                *options,
                rename_suffix@,
            ),
        decreases data.keys@.len() - i,
    {
        let e = &data.keys[i];
        let mut pub_name = e.name.clone();
        pub_name.append(".pub");
        let exists = name_list_contains(existing_files, e.name.as_str()) || name_list_contains(
            existing_files,
            pub_name.as_str(),
        );
        proof {
            assert(names_contain(existing_files@, e.name@) == dom.contains(e.name@)) by {
                if names_contain(existing_files@, e.name@) {
                    let j = choose|j: int|
                        0 <= j < existing_files@.len() && existing_files@[j]@ == e.name@;
                    assert(views_of(existing_files@)[j] == e.name@);
                    assert(views_of(existing_files@).contains(e.name@));
                }
                if dom.contains(e.name@) {
                    assert(views_of(existing_files@).contains(e.name@));
                    let j = choose|j: int|
                        0 <= j < views_of(existing_files@).len() && views_of(existing_files@)[j]
                            == e.name@;
                    assert(existing_files@[j]@ == e.name@);
                }
            }
            assert(names_contain(existing_files@, pub_name@) == dom.contains(e.name@ + ".pub"@))
                by {
                if names_contain(existing_files@, pub_name@) {
                    let j = choose|j: int|
                        0 <= j < existing_files@.len() && existing_files@[j]@ == pub_name@;
                    assert(views_of(existing_files@)[j] == pub_name@);
                    assert(views_of(existing_files@).contains(pub_name@));
                }
                if dom.contains(e.name@ + ".pub"@) {
                    assert(views_of(existing_files@).contains(pub_name@));
                    let j = choose|j: int|
                        0 <= j < views_of(existing_files@).len() && views_of(existing_files@)[j]
                            == pub_name@;
                    assert(existing_files@[j]@ == pub_name@);
                }
            }
            assert(exists == spec_store_has(dom, e.name@));
        }
        let action = resolve_action(exists, options.merge_strategy);
        let target = if matches!(action, MergeAction::RenameImport) {
            let mut t = e.name.clone();
            t.append("_");
            t.append(rename_suffix);
            t
        } else {
            e.name.clone()
        };
        let label = if matches!(action, MergeAction::RenameImport) {
            if options.dry_run {
                let mut l = e.name.clone();
                l.append(" -> ");
                l.append(e.name.as_str());
                l.append("_{timestamp}");
                l
            } else {
                target.clone()
            }
        } else {
            e.name.clone()
        };
        let writes = !options.dry_run && !matches!(action, MergeAction::Skip);
        let planned = PlannedEntry {
            name: e.name.clone(),
            label,
            target,
            action,
            private_key: if writes {
                clone_opt_bytes(&e.private_key)
            } else {
                None
            },
            public_key: if writes {
                clone_opt_bytes(&e.public_key)
            } else {
                None
            },
        };
        proof {
            assert(planned@ == spec_plan_entry(
                entries[i as int],
                spec_store_has(dom, entries[i as int].name),
                *options,
                rename_suffix@,
            ));
        }
        plan.push(planned);
        i += 1;
    }
    proof {
        assert(plan_view(plan@) =~= spec_plan(entries, dom, *options, rename_suffix@));
    }
    plan
}

/// An import report with empty buckets.
pub open spec fn spec_empty_report() -> ReportView {
    ReportView {
        imported: Seq::empty(),
        skipped: Seq::empty(),
        overwritten: Seq::empty(),
        errors: Seq::empty(),
    }
}

/// Where one entry's outcome lands: a failure goes to `errors` under the
/// entry's own name; a success goes to the bucket its action names, under
/// the plan's label.
pub open spec fn spec_report_entry(
    rep: ReportView,
    p: PlanEntryView,
    outcome: Option<Seq<char>>,
) -> ReportView {
    match outcome {
        Option::Some(msg) => ReportView { errors: rep.errors.push((p.name, msg)), ..rep },
        Option::None => match p.action {
            MergeAction::Import => ReportView { imported: rep.imported.push(p.label), ..rep },
            MergeAction::RenameImport => ReportView { imported: rep.imported.push(p.label), ..rep },
            MergeAction::Skip => ReportView { skipped: rep.skipped.push(p.label), ..rep },
            MergeAction::Overwrite => ReportView {
                overwritten: rep.overwritten.push(p.label),
                ..rep
            },
        },
    }
}

/// The report grown from `rep` by the outcomes of `plan`, first entry first.
pub open spec fn spec_report_from(
    rep: ReportView,
    plan: Seq<PlanEntryView>,
    outcomes: Seq<Option<Seq<char>>>,
) -> ReportView
    decreases plan.len(),
{
    if plan.len() == 0 {
        rep
    } else {
        spec_report_from(
            spec_report_entry(rep, plan[0], outcomes[0]),
            plan.drop_first(),
            outcomes.drop_first(),
        )
    }
}

/// The report of a whole import: every entry's outcome, in container order.
pub open spec fn spec_report(
    plan: Seq<PlanEntryView>,
    outcomes: Seq<Option<Seq<char>>>,
) -> ReportView {
    spec_report_from(spec_empty_report(), plan, outcomes)
}

/// The views of a list of outcomes.
pub open spec fn outcomes_view(outcomes: Seq<Option<String>>) -> Seq<Option<Seq<char>>> {
    outcomes.map_values(
        |o: Option<String>|
            match o {
                Option::Some(m) => Option::Some(m@),
                Option::None => Option::None::<Seq<char>>,
            },
    )
}

/// Fold the per-entry outcomes of a carried-out (or dry) plan into the final
/// report: `None` is success, `Some` is the failure's description. Entries
/// are never dropped: each lands in exactly one bucket.
pub fn build_report(plan: &Vec<PlannedEntry>, outcomes: &Vec<Option<String>>) -> (r: ImportReport)
    requires
        plan@.len() == outcomes@.len(),
    ensures
        r@ == spec_report(plan_view(plan@), outcomes_view(outcomes@)),
{
    let ghost pv = plan_view(plan@);
    let ghost ov = outcomes_view(outcomes@);
    let mut report = ImportReport {
        imported: Vec::new(),
        skipped: Vec::new(),
        overwritten: Vec::new(),
        errors: Vec::new(),
    };
    proof {
        assert(report@ =~= spec_empty_report());
        assert(pv.skip(0) =~= pv);
        assert(ov.skip(0) =~= ov);
    }
    let mut i: usize = 0;
    while i < plan.len()
        invariant
            i <= plan@.len(),
            plan@.len() == outcomes@.len(),
            pv == plan_view(plan@),
            ov == outcomes_view(outcomes@),
            spec_report(pv, ov) == spec_report_from(report@, pv.skip(i as int), ov.skip(i as int)),
        decreases plan@.len() - i,
    {
        let ghost before = report@;
        let p = &plan[i];
        match &outcomes[i] {
            Option::Some(msg) => {
                report.errors.push((p.name.clone(), msg.clone()));
                proof {
                    assert(report@.errors =~= before.errors.push((p@.name, ov[i as int]->0)));
                }
            },
            Option::None => {
                match p.action {
                    MergeAction::Import => report.imported.push(p.label.clone()),
                    MergeAction::RenameImport => report.imported.push(p.label.clone()),
                    MergeAction::Skip => report.skipped.push(p.label.clone()),
                    MergeAction::Overwrite => report.overwritten.push(p.label.clone()),
                }
            },
        }
        proof {
            assert(report@ =~= spec_report_entry(before, pv[i as int], ov[i as int]));
            assert(pv.skip(i as int)[0] == pv[i as int]);
            assert(ov.skip(i as int)[0] == ov[i as int]);
            assert(pv.skip(i as int).drop_first() =~= pv.skip(i as int + 1));
            assert(ov.skip(i as int).drop_first() =~= ov.skip(i as int + 1));
        }
        i += 1;
    }
    proof {
        assert(pv.skip(pv.len() as int) =~= Seq::<PlanEntryView>::empty());
        assert(ov.skip(ov.len() as int) =~= Seq::<Option<Seq<char>>>::empty());
    }
    report
}

/// The all-successful outcomes of a plan: what a dry run reports, and what a
/// real run reports when every write lands.
pub fn successful_outcomes(plan: &Vec<PlannedEntry>) -> (r: Vec<Option<String>>)
    ensures
        r@.len() == plan@.len(),
        outcomes_view(r@) == spec_none_outcomes(plan@.len() as nat),
{
    let mut r: Vec<Option<String>> = Vec::new();
    let mut i: usize = 0;
    while i < plan.len()
        invariant
            i <= plan@.len(),
            r@.len() == i,
            forall|k: int| 0 <= k < i ==> r@[k] is None,
        decreases plan@.len() - i,
    {
        r.push(None);
        i += 1;
    }
    proof {
        assert(outcomes_view(r@) =~= spec_none_outcomes(plan@.len() as nat));
    }
    r
}

/// `n` successes.
pub open spec fn spec_none_outcomes(n: nat) -> Seq<Option<Seq<char>>> {
    Seq::new(n, |i: int| Option::None)
}

/// Exports and imports backups of one key directory.
pub struct BackupManager {
    pub ssh_dir: String,
}

impl BackupManager {
    /// A manager for the key directory at `ssh_dir`.
    pub fn new(ssh_dir: &str) -> (r: Self)
        ensures
            r.ssh_dir@ == ssh_dir@,
    {
        BackupManager { ssh_dir: ssh_dir.to_owned() }
    }

    /// The customary file extension of backup containers.
    pub fn get_backup_extension() -> (r: &'static str)
        ensures
            r@ == "skm"@,
    {
        "skm"
    }

    /// Export `keys` as an encrypted container: filter by the selection,
    /// drop private halves if asked, stamp the metadata from `env`, encode,
    /// and encrypt under `passphrase`. Returns the container bytes; writing
    /// them to their destination is the caller's step. Only the encryption
    /// step can fail.
    pub fn export(
        &self,
        keys: &Vec<KeyRecord>,
        passphrase: &str,
        options: &ExportOptions,
        env: &BackupEnvironment,
    ) -> (r: Result<Vec<u8>, SkmError>)
        ensures
            r matches Ok(container) ==> is_age_envelope(container@) && envelope_plaintext(
                container@,
                passphrase@,
            ) == Option::Some(spec_encode(spec_export_container(records_view(keys@), options@, env@))),
            r matches Err(e) ==> e is Encryption,
    {
        let entries = build_backup_entries(keys, options);
        let key_count = entries.len() as u64;
        let data = BackupData {
            metadata: BackupMetadata {
                version: BACKUP_VERSION,
                created_at: env.created_at,
                hostname: env.hostname.clone(),
                username: env.username.clone(),
                key_count,
                description: clone_opt_string(&options.description),
            },
            keys: entries,
        };
        proof {
            assert(data@ == spec_export_container(records_view(keys@), options@, env@));
        }
        let payload = codec::encode(&data);
        EncryptionManager::encrypt_with_passphrase(payload.as_slice(), passphrase)
    }

    /// Decide an import: decrypt the container with `passphrase`, decode it,
    /// and plan every entry against the file names already in the
    /// destination. Nothing is written here, so a failure leaves no partial
    /// state: an envelope that parses but does not open — a wrong passphrase
    /// or a tampered payload — aborts with the authentication failure, bytes
    /// that are no envelope at all with the format failure, and a payload
    /// that does not match the schema with the schema failure, each
    /// propagated verbatim.
    pub fn import(
        &self,
        encrypted: &[u8],
        passphrase: &str,
        options: &ImportOptions,
        existing_files: &Vec<String>,
        rename_suffix: &str,
    ) -> (r: Result<Vec<PlannedEntry>, SkmError>)
        ensures
            r matches Ok(plan) ==> (envelope_plaintext(encrypted@, passphrase@) matches Some(pt)
                && spec_decode(pt) matches Some(c) && plan_view(plan@) == spec_plan(
                c.keys,
                views_of(existing_files@).to_set(),
                *options,
                rename_suffix@,
            )),
            r is Ok <==> (envelope_plaintext(encrypted@, passphrase@) matches Some(pt)
                && spec_decode(pt) is Some),
            r matches Err(e) ==> ((is_age_envelope(encrypted@) && envelope_plaintext(
                encrypted@,
                passphrase@,
            ) is None) ==> e is InvalidPassphrase),
            r matches Err(e) ==> (!is_age_envelope(encrypted@) ==> e is Encryption),
            r matches Err(e) ==> ((envelope_plaintext(encrypted@, passphrase@) matches Some(pt)
                && spec_decode(pt) is None) ==> e is ImportExport),
    {
        let decrypted = match EncryptionManager::decrypt_with_passphrase(encrypted, passphrase) {
            Ok(d) => d,
            Err(e) => {
                return Err(e);
            },
        };
        let data = match codec::decode(decrypted.as_slice()) {
            Ok(d) => d,
            Err(e) => {
                return Err(e);
            },
        };
        Ok(plan_import(&data, existing_files, options, rename_suffix))
    }
}

} // verus!
