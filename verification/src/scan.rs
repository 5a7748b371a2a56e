//! The export scanner: from the export events of one file to the records of
//! the symbols that the file offers to importers.

use crate::naming::{file_stem_of, pascal_case, to_pascal_case};
use vstd::prelude::*;

verus! {

/// How a symbol is made available to importers.
#[derive(Clone, Copy, Debug, PartialEq, Eq, Structural)]
pub enum ExportForm {
    /// `export default name`
    Default,
    /// `export { a, b as c }`
    Named,
    /// `export type { X as Y }`
    TypeOnly,
    /// `export * as ns from ...`
    Namespace,
    /// `export function name() {}` and the like
    Declaration,
}

/// The kind of declaration behind a symbol.
#[derive(Clone, Copy, Debug, PartialEq, Eq, Structural)]
pub enum DeclarationKind {
    Function,
    Class,
    Const,
}

/// One entry of a named-export list: the name inside the file and the name
/// that importers see. The two differ where the source wrote `local as exported`.
#[derive(Clone, Debug, PartialEq, Eq)]
pub struct NameBinding {
    pub local: String,
    pub exported: String,
}

/// One export statement as the event parser reports it: its form, and the
/// payload fields of which each form reads its own.
#[derive(Clone, Debug, PartialEq, Eq)]
pub struct ExportEvent {
    pub form: ExportForm,
    /// The name of a default export.
    pub default_name: Option<String>,
    /// The name of a namespace or declaration export.
    pub name: Option<String>,
    /// The entries of a named export, in source order.
    pub named_exports: Option<Vec<NameBinding>>,
    /// The entries of a type-only named export, in source order.
    pub type_named_exports: Option<Vec<NameBinding>>,
}

/// One symbol that a file exports.
#[derive(Clone, Debug, PartialEq, Eq)]
pub struct Export {
    /// The path of the file that exports the symbol.
    pub source_path: String,
    /// The identifier that other files import.
    pub exported_name: String,
    /// The name of the symbol inside its own file, where the export form
    /// gives one.
    pub local_name: Option<String>,
    /// Rank among files that export the same name. A scan gives 0.
    pub priority: usize,
    /// Reserved for configuration. A scan leaves it unset.
    pub disabled: Option<bool>,
    /// Reserved for configuration. A scan leaves it unset.
    pub dts_declaration_disabled: Option<bool>,
    /// Reserved for configuration. A scan leaves it unset.
    pub declaration_kind: Option<DeclarationKind>,
    /// `Some(true)` for a symbol of a type-only export, unset otherwise.
    pub is_type_only: Option<bool>,
    /// For a symbol of a type-only export, the PascalCase stem of the file.
    pub type_origin_label: Option<String>,
    /// Reserved: the name under which the importer binds the symbol. A scan
    /// leaves it unset.
    pub alias: Option<String>,
}

/// Why a scan gave no records.
#[derive(Clone, Debug, PartialEq, Eq)]
pub enum ScanError {
    /// The path names no file, so there is no stem to label types with.
    MissingFileStem { source_path: String },
    /// An event of a form that needs a name came without one.
    MissingExportName { source_path: String, form: ExportForm },
}

/// A [`NameBinding`] as mathematical text.
pub struct NameBindingView {
    pub local: Seq<char>,
    pub exported: Seq<char>,
}

/// An [`ExportEvent`] as mathematical text.
pub struct ExportEventView {
    pub form: ExportForm,
    pub default_name: Option<Seq<char>>,
    pub name: Option<Seq<char>>,
    pub named_exports: Option<Seq<NameBindingView>>,
    pub type_named_exports: Option<Seq<NameBindingView>>,
}

/// An [`Export`] as mathematical text.
pub struct ExportView {
    pub source_path: Seq<char>,
    pub exported_name: Seq<char>,
    pub local_name: Option<Seq<char>>,
    pub priority: nat,
    pub disabled: Option<bool>,
    pub dts_declaration_disabled: Option<bool>,
    pub declaration_kind: Option<DeclarationKind>,
    pub is_type_only: Option<bool>,
    pub type_origin_label: Option<Seq<char>>,
    pub alias: Option<Seq<char>>,
}

/// A [`ScanError`] as mathematical text.
pub enum ScanErrorView {
    MissingFileStem { source_path: Seq<char> },
    MissingExportName { source_path: Seq<char>, form: ExportForm },
}

/// The text of an optional string.
pub open spec fn text_view(text: Option<String>) -> Option<Seq<char>> {
    match text {
        Some(t) => Some(t@),
        None => None,
    }
}

/// The text of an optional string slice.
pub open spec fn str_view(text: Option<&str>) -> Option<Seq<char>> {
    match text {
        Some(t) => Some(t@),
        None => None,
    }
}

/// The entries of an export list, each by its view.
pub open spec fn bindings_view(bindings: Seq<NameBinding>) -> Seq<NameBindingView> {
    bindings.map_values(|b: NameBinding| b@)
}

/// The events of a file, each by its view.
pub open spec fn events_view(events: Seq<ExportEvent>) -> Seq<ExportEventView> {
    events.map_values(|e: ExportEvent| e@)
}

/// The records of a scan, each by its view.
pub open spec fn records_view(records: Seq<Export>) -> Seq<ExportView> {
    records.map_values(|r: Export| r@)
}

/// The outcome of a scan by its view: the records, or the failure.
pub open spec fn outcome_view(outcome: Result<Vec<Export>, ScanError>) -> Result<
    Seq<ExportView>,
    ScanErrorView,
> {
    match outcome {
        Ok(records) => Ok(records_view(records@)),
        Err(error) => Err(error@),
    }
}

impl View for NameBinding {
    type V = NameBindingView;

    open spec fn view(&self) -> NameBindingView {
        NameBindingView { local: self.local@, exported: self.exported@ }
    }
}

impl View for ExportEvent {
    type V = ExportEventView;

    open spec fn view(&self) -> ExportEventView {
        ExportEventView {
            form: self.form,
            default_name: text_view(self.default_name),
            name: text_view(self.name),
            named_exports: match self.named_exports {
                Some(bindings) => Some(bindings_view(bindings@)),
                None => None,
            },
            type_named_exports: match self.type_named_exports {
                Some(bindings) => Some(bindings_view(bindings@)),
                None => None,
            },
        }
    }
}

impl View for Export {
    type V = ExportView;

    open spec fn view(&self) -> ExportView {
        ExportView {
            source_path: self.source_path@,
            exported_name: self.exported_name@,
            local_name: text_view(self.local_name),
            priority: self.priority as nat,
            disabled: self.disabled,
            dts_declaration_disabled: self.dts_declaration_disabled,
            declaration_kind: self.declaration_kind,
            is_type_only: self.is_type_only,
            type_origin_label: text_view(self.type_origin_label),
            alias: text_view(self.alias),
        }
    }
}

impl View for ScanError {
    type V = ScanErrorView;

    open spec fn view(&self) -> ScanErrorView {
        match *self {
            ScanError::MissingFileStem { source_path } => ScanErrorView::MissingFileStem {
                source_path: source_path@,
            },
            ScanError::MissingExportName { source_path, form } => ScanErrorView::MissingExportName {
                source_path: source_path@,
                form,
            },
        }
    }
}

impl ExportView {
    /// What every record must satisfy: it names its symbol and its file.
    pub open spec fn well_formed(self) -> bool {
        self.exported_name.len() > 0 && self.source_path.len() > 0
    }

    /// A record as a scan of the file at `path` writes it, whatever its names:
    /// lowest priority, nothing reserved set, and either marked type-only
    /// and labelled with `label`, or neither.
    pub open spec fn scanned_from(self, path: Seq<char>, label: Seq<char>) -> bool {
        &&& self.source_path == path
        &&& self.priority == 0
        &&& self.disabled is None
        &&& self.dts_declaration_disabled is None
        &&& self.declaration_kind is None
        &&& self.alias is None
        &&& ({
            ||| self.is_type_only is None && self.type_origin_label is None
            ||| self.is_type_only == Some(true) && self.type_origin_label == Some(label)
        })
    }
}

impl Export {
    /// Whether the record names its symbol and its file.
    pub open spec fn well_formed(&self) -> bool {
        self@.well_formed()
    }
}

/// The record of a symbol that a default, namespace or declaration export
/// names directly.
pub open spec fn direct_record(path: Seq<char>, name: Seq<char>) -> ExportView {
    ExportView {
        source_path: path,
        exported_name: name,
        local_name: None,
        priority: 0,
        disabled: None,
        dts_declaration_disabled: None,
        declaration_kind: None,
        is_type_only: None,
        type_origin_label: None,
        alias: None,
    }
}

/// The record of one entry of a named export.
pub open spec fn named_record(path: Seq<char>, binding: NameBindingView) -> ExportView {
    ExportView {
        source_path: path,
        exported_name: binding.exported,
        local_name: Some(binding.local),
        priority: 0,
        disabled: None,
        dts_declaration_disabled: None,
        declaration_kind: None,
        is_type_only: None,
        type_origin_label: None,
        alias: None,
    }
}

/// The record of one entry of a type-only named export.
pub open spec fn type_record(
    path: Seq<char>,
    label: Seq<char>,
    binding: NameBindingView,
) -> ExportView {
    ExportView {
        source_path: path,
        exported_name: binding.exported,
        local_name: Some(binding.local),
        priority: 0,
        disabled: None,
        dts_declaration_disabled: None,
        declaration_kind: None,
        is_type_only: Some(true),
        type_origin_label: Some(label),
        alias: None,
    }
}

/// Whether the event is of a form that needs a name and has none.
pub open spec fn lacks_name(event: ExportEventView) -> bool {
    match event.form {
        ExportForm::Default => event.default_name is None,
        ExportForm::Namespace | ExportForm::Declaration => event.name is None,
        ExportForm::Named | ExportForm::TypeOnly => false,
    }
}

/// The records of one event: one for a default, namespace or declaration
/// export, one per entry for a named or type-only export, in the order of
/// the entries.
pub open spec fn event_records(
    path: Seq<char>,
    label: Seq<char>,
    event: ExportEventView,
) -> Seq<ExportView> {
    match event.form {
        ExportForm::Default => match event.default_name {
            Some(name) => seq![direct_record(path, name)],
            None => Seq::empty(),
        },
        ExportForm::Namespace | ExportForm::Declaration => match event.name {
            Some(name) => seq![direct_record(path, name)],
            None => Seq::empty(),
        },
        ExportForm::Named => match event.named_exports {
            Some(bindings) => bindings.map_values(|b: NameBindingView| named_record(path, b)),
            None => Seq::empty(),
        },
        ExportForm::TypeOnly => match event.type_named_exports {
            Some(bindings) => bindings.map_values(
                |b: NameBindingView| type_record(path, label, b),
            ),
            None => Seq::empty(),
        },
    }
}

/// The records of all events, event after event.
pub open spec fn all_records(
    path: Seq<char>,
    label: Seq<char>,
    events: Seq<ExportEventView>,
) -> Seq<ExportView> {
    events.map_values(|e: ExportEventView| event_records(path, label, e)).flatten()
}

/// Whether `i` is the place of the first event that lacks its name.
pub open spec fn first_unnamed_at(events: Seq<ExportEventView>, i: int) -> bool {
    &&& 0 <= i < events.len()
    &&& lacks_name(events[i])
    &&& forall|j: int| 0 <= j < i ==> !lacks_name(#[trigger] events[j])
}

/// What a scan gives for a file at `path` whose file name has the stem
/// `stem`, or none. Without a stem the scan fails. With an event that lacks
/// its name it fails with the form of the first such event. Otherwise it
/// gives the records of all events, labelled with the stem in PascalCase.
pub open spec fn scan_outcome(
    path: Seq<char>,
    stem: Option<Seq<char>>,
    events: Seq<ExportEventView>,
) -> Result<Seq<ExportView>, ScanErrorView> {
    match stem {
        None => Err(ScanErrorView::MissingFileStem { source_path: path }),
        Some(stem) => {
            if exists|i: int| first_unnamed_at(events, i) {
                let i = choose|i: int| first_unnamed_at(events, i);
                Err(ScanErrorView::MissingExportName { source_path: path, form: events[i].form })
            } else {
                Ok(all_records(path, pascal_case(stem), events))
            }
        },
    }
}

/// The records of one more event follow those of the events before it.
proof fn lemma_all_records_push(
    path: Seq<char>,
    label: Seq<char>,
    events: Seq<ExportEventView>,
    event: ExportEventView,
)
    ensures
        all_records(path, label, events.push(event)) == all_records(path, label, events)
            + event_records(path, label, event),
{
    let per_event = |e: ExportEventView| event_records(path, label, e);
    assert(events.push(event).map_values(per_event) =~= events.map_values(per_event).push(
        event_records(path, label, event),
    ));
    events.map_values(per_event).lemma_flatten_push(event_records(path, label, event));
}

/// At most one place is that of the first event that lacks its name.
proof fn lemma_first_unnamed_unique(events: Seq<ExportEventView>, i: int, j: int)
    requires
        first_unnamed_at(events, i),
        first_unnamed_at(events, j),
    ensures
        i == j,
{
    if i < j {
        assert(!lacks_name(events[i]));
    } else if j < i {
        assert(!lacks_name(events[j]));
    }
}

/// A scan over events of which one lacks its name fails with the form of
/// the first such event.
pub proof fn lemma_scan_of_unnamed_event(
    path: Seq<char>,
    stem: Seq<char>,
    events: Seq<ExportEventView>,
    at: int,
)
    requires
        first_unnamed_at(events, at),
    ensures
        scan_outcome(path, Some(stem), events) == Err::<Seq<ExportView>, ScanErrorView>(
            ScanErrorView::MissingExportName { source_path: path, form: events[at].form },
        ),
{
    let i = choose|i: int| first_unnamed_at(events, i);
    lemma_first_unnamed_unique(events, at, i);
}

/// Before an event that lacks its name, or at it, stands the first that does.
proof fn lemma_first_unnamed_exists(events: Seq<ExportEventView>, at: int)
    requires
        0 <= at < events.len(),
        lacks_name(events[at]),
    ensures
        exists|i: int| 0 <= i <= at && first_unnamed_at(events, i),
    decreases at,
{
    if exists|j: int| 0 <= j < at && lacks_name(#[trigger] events[j]) {
        let j = choose|j: int| 0 <= j < at && lacks_name(#[trigger] events[j]);
        lemma_first_unnamed_exists(events, j);
    } else {
        assert(first_unnamed_at(events, at));
    }
}

/// A scan succeeds exactly where the file name has a stem and every event
/// of a default, namespace or declaration export has its name.
pub proof fn lemma_scan_succeeds_iff(
    path: Seq<char>,
    stem: Option<Seq<char>>,
    events: Seq<ExportEventView>,
)
    ensures
        scan_outcome(path, stem, events) is Ok <==> stem is Some && forall|i: int|
            0 <= i < events.len() ==> !lacks_name(#[trigger] events[i]),
{
    if stem is Some {
        if exists|i: int| 0 <= i < events.len() && lacks_name(#[trigger] events[i]) {
            let i = choose|i: int| 0 <= i < events.len() && lacks_name(#[trigger] events[i]);
            lemma_first_unnamed_exists(events, i);
        }
    }
}

fn direct_export(file_path: &str, name: &String) -> (record: Export)
    ensures
        record@ == direct_record(file_path@, name@),
{
    Export {
        source_path: file_path.to_owned(),
        exported_name: name.clone(),
        local_name: None,
        priority: 0,
        disabled: None,
        dts_declaration_disabled: None,
        declaration_kind: None,
        is_type_only: None,
        type_origin_label: None,
        alias: None,
    }
}

fn named_export(file_path: &str, binding: &NameBinding) -> (record: Export)
    ensures
        record@ == named_record(file_path@, binding@),
{
    Export {
        source_path: file_path.to_owned(),
        exported_name: binding.exported.clone(),
        local_name: Some(binding.local.clone()),
        priority: 0,
        disabled: None,
        dts_declaration_disabled: None,
        declaration_kind: None,
        is_type_only: None,
        type_origin_label: None,
        alias: None,
    }
}

fn type_export(file_path: &str, label: &String, binding: &NameBinding) -> (record: Export)
    ensures
        record@ == type_record(file_path@, label@, binding@),
{
    Export {
        source_path: file_path.to_owned(),
        exported_name: binding.exported.clone(),
        local_name: Some(binding.local.clone()),
        priority: 0,
        disabled: None,
        dts_declaration_disabled: None,
        declaration_kind: None,
        is_type_only: Some(true),
        type_origin_label: Some(label.clone()),
        alias: None,
    }
}

/// Appends the records of the entries of one named or type-only export.
fn push_entry_records(
    records: &mut Vec<Export>,
    file_path: &str,
    label: &String,
    bindings: &[NameBinding],
    type_only: bool,
)
    ensures
        records_view(final(records)@) == records_view(old(records)@) + if type_only {
            bindings_view(bindings@).map_values(
                |b: NameBindingView| type_record(file_path@, label@, b),
            )
        } else {
            bindings_view(bindings@).map_values(|b: NameBindingView| named_record(file_path@, b))
        },
{
    let ghost before = records_view(records@);
    let ghost entries = bindings_view(bindings@);
    let ghost per_entry = |b: NameBindingView|
        if type_only {
            type_record(file_path@, label@, b)
        } else {
            named_record(file_path@, b)
        };
    let mut k: usize = 0;
    while k < bindings.len()
        invariant
            k <= bindings.len(),
            entries == bindings_view(bindings@),
            per_entry == |b: NameBindingView|
                if type_only {
                    type_record(file_path@, label@, b)
                } else {
                    named_record(file_path@, b)
                },
            records_view(records@) == before + entries.take(k as int).map_values(per_entry),
        decreases bindings.len() - k,
    {
        let binding = &bindings[k];
        let record = if type_only {
            type_export(file_path, label, binding)
        } else {
            named_export(file_path, binding)
        };
        let ghost so_far = records@;
        records.push(record);
        proof {
            assert(records_view(so_far.push(record)) =~= records_view(so_far).push(record@));
            assert(entries.take(k + 1) =~= entries.take(k as int).push(binding@));
            assert(entries.take(k + 1).map_values(per_entry) =~= entries.take(
                k as int,
            ).map_values(per_entry).push(record@));
        }
        k = k + 1;
    }
    proof {
        assert(entries.take(k as int) =~= entries);
        if type_only {
            assert(entries.map_values(per_entry) =~= entries.map_values(
                |b: NameBindingView| type_record(file_path@, label@, b),
            ));
        } else {
            assert(entries.map_values(per_entry) =~= entries.map_values(
                |b: NameBindingView| named_record(file_path@, b),
            ));
        }
    }
}

/// Scans the events of the file at `file_path`, whose file name has the stem
/// `stem`, or none.
///
/// Without a stem there is nothing to label types with, and the scan fails.
/// An event of a default, namespace or declaration export without its name
/// fails the scan too, with the form of the first such event. Otherwise each
/// event gives its records, in the order of the events and of their entries.
pub fn scan_exports_with_stem(
    file_path: &str,
    stem: Option<&str>,
    events: &[ExportEvent],
) -> (outcome: Result<Vec<Export>, ScanError>)
    ensures
        outcome_view(outcome) == scan_outcome(file_path@, str_view(stem), events_view(events@)),
{
    let label = match stem {
        Some(stem) => to_pascal_case(stem),
        None => {
            return Err(ScanError::MissingFileStem { source_path: file_path.to_owned() });
        },
    };
    let ghost seen = events_view(events@);
    let ghost stem_text = stem.unwrap()@;
    let mut records: Vec<Export> = Vec::new();
    let mut i: usize = 0;
    proof {
        assert(seen.take(0).map_values(|e: ExportEventView| event_records(file_path@, label@, e))
            =~= Seq::<Seq<ExportView>>::empty());
        assert(records_view(records@) =~= Seq::<ExportView>::empty());
    }
    while i < events.len()
        invariant
            i <= events.len(),
            seen == events_view(events@),
            str_view(stem) == Some(stem_text),
            forall|j: int| 0 <= j < i ==> !lacks_name(#[trigger] seen[j]),
            records_view(records@) == all_records(file_path@, label@, seen.take(i as int)),
        decreases events.len() - i,
    {
        let event = &events[i];
        let ghost before = records@;
        proof {
            assert(seen[i as int] == event@);
            assert(seen.take(i + 1) =~= seen.take(i as int).push(event@));
            lemma_all_records_push(file_path@, label@, seen.take(i as int), event@);
        }
        let name = match event.form {
            ExportForm::Default => &event.default_name,
            ExportForm::Namespace | ExportForm::Declaration => &event.name,
            ExportForm::Named => {
                if let Some(bindings) = &event.named_exports {
                    push_entry_records(&mut records, file_path, &label, bindings, false);
                }
                i = i + 1;
                continue ;
            },
            ExportForm::TypeOnly => {
                if let Some(bindings) = &event.type_named_exports {
                    push_entry_records(&mut records, file_path, &label, bindings, true);
                }
                i = i + 1;
                continue ;
            },
        };
        match name {
            Some(name) => {
                let record = direct_export(file_path, name);
                records.push(record);
                proof {
                    assert(records_view(before.push(record)) =~= records_view(before).push(
                        record@,
                    ));
                }
            },
            None => {
                proof {
                    lemma_scan_of_unnamed_event(file_path@, stem_text, seen, i as int);
                }
                return Err(
                    ScanError::MissingExportName {
                        source_path: file_path.to_owned(),
                        form: event.form,
                    },
                );
            },
        }
        i = i + 1;
    }
    proof {
        assert(seen.take(i as int) =~= seen);
        assert forall|j: int| !first_unnamed_at(seen, j) by {
            if 0 <= j < seen.len() {
                assert(!lacks_name(seen[j]));
            }
        }
    }
    Ok(records)
}

/// Scans the events of the file at `file_path`: the symbols that the file
/// offers to importers, or why there are none to give.
///
/// The stem that labels the types is the one of the file name of
/// `file_path`. The scan succeeds exactly where the path has a stem and no
/// event lacks its name. A file without export events has no records,
/// which is no failure.
pub fn scan_exports(file_path: &str, events: &[ExportEvent]) -> (outcome: Result<
    Vec<Export>,
    ScanError,
>)
    ensures
        outcome_view(outcome) == scan_outcome(
            file_path@,
            file_stem_of(file_path@),
            events_view(events@),
        ),
        outcome is Ok <==> file_stem_of(file_path@) is Some && forall|i: int|
            0 <= i < events@.len() ==> !lacks_name(#[trigger] events_view(events@)[i]),
        events@.len() == 0 && file_stem_of(file_path@) is Some ==> (outcome matches Ok(records)
            && records@.len() == 0),
{
    let stem = crate::naming::path_file_stem(file_path);
    let outcome = match &stem {
        Some(stem) => scan_exports_with_stem(file_path, Some(stem.as_str()), events),
        None => scan_exports_with_stem(file_path, None, events),
    };
    proof {
        lemma_scan_succeeds_iff(file_path@, file_stem_of(file_path@), events_view(events@));
        if events@.len() == 0 && stem is Some {
            assert(events_view(events@) =~= Seq::<ExportEventView>::empty());
            lemma_scan_of_no_events(file_path@, stem.unwrap()@);
            assert(records_view(outcome.unwrap()@).len() == 0);
        }
    }
    outcome
}

/// What holds of every record of every event holds of every record of
/// the scan.
proof fn lemma_all_records_each(
    path: Seq<char>,
    label: Seq<char>,
    events: Seq<ExportEventView>,
    holds: spec_fn(ExportView) -> bool,
)
    requires
        forall|i: int, k: int|
            0 <= i < events.len() && 0 <= k < event_records(path, label, events[i]).len()
                ==> holds(#[trigger] event_records(path, label, events[i])[k]),
    ensures
        forall|k: int|
            0 <= k < all_records(path, label, events).len() ==> holds(
                #[trigger] all_records(path, label, events)[k],
            ),
    decreases events.len(),
{
    if events.len() == 0 {
        assert(events.map_values(|e: ExportEventView| event_records(path, label, e))
            =~= Seq::<Seq<ExportView>>::empty());
    } else {
        let before = events.drop_last();
        let last = events.last();
        assert(events =~= before.push(last));
        assert forall|i: int, k: int|
            0 <= i < before.len() && 0 <= k < event_records(
                path,
                label,
                before[i],
            ).len() implies holds(#[trigger] event_records(path, label, before[i])[k]) by {
            assert(before[i] == events[i]);
        }
        lemma_all_records_each(path, label, before, holds);
        lemma_all_records_push(path, label, before, last);
        let head = all_records(path, label, before);
        let tail = event_records(path, label, last);
        assert forall|k: int| 0 <= k < (head + tail).len() implies holds(
            #[trigger] (head + tail)[k],
        ) by {
            if k >= head.len() {
                assert((head + tail)[k] == tail[k - head.len()]);
                assert(tail[k - head.len()] == event_records(path, label, events[events.len() - 1])[k
                    - head.len()]);
            }
        }
    }
}

/// The records of a single event are the records of the scan.
proof fn lemma_all_records_single(path: Seq<char>, label: Seq<char>, event: ExportEventView)
    ensures
        all_records(path, label, seq![event]) == event_records(path, label, event),
{
    let none = Seq::<ExportEventView>::empty();
    assert(seq![event] =~= none.push(event));
    assert(none.map_values(|e: ExportEventView| event_records(path, label, e))
        =~= Seq::<Seq<ExportView>>::empty());
    lemma_all_records_push(path, label, none, event);
    assert(Seq::<ExportView>::empty() + event_records(path, label, event) =~= event_records(
        path,
        label,
        event,
    ));
}

/// A single event that has the name its form needs leaves no event
/// without its name.
proof fn lemma_lone_event_named(event: ExportEventView)
    requires
        !lacks_name(event),
    ensures
        forall|i: int| !first_unnamed_at(seq![event], i),
{
    assert forall|i: int| !first_unnamed_at(seq![event], i) by {
        if i == 0 {
            assert(seq![event][0] == event);
        }
    }
}

/// A file with no export events has no records, and that is no failure.
pub proof fn lemma_scan_of_no_events(path: Seq<char>, stem: Seq<char>)
    ensures
        scan_outcome(path, Some(stem), Seq::empty()) == Ok::<Seq<ExportView>, ScanErrorView>(
            Seq::empty(),
        ),
{
    let none = Seq::<ExportEventView>::empty();
    assert(none.map_values(|e: ExportEventView| event_records(path, pascal_case(stem), e))
        =~= Seq::<Seq<ExportView>>::empty());
    assert(all_records(path, pascal_case(stem), none) =~= Seq::<ExportView>::empty());
}

/// A file whose one event is a default export of `name` has exactly one
/// record: it carries `name`, is not marked type-only and has priority 0.
pub proof fn lemma_scan_of_default_export(
    path: Seq<char>,
    stem: Seq<char>,
    event: ExportEventView,
    name: Seq<char>,
)
    requires
        event.form == ExportForm::Default,
        event.default_name == Some(name),
    ensures
        scan_outcome(path, Some(stem), seq![event]) == Ok::<Seq<ExportView>, ScanErrorView>(
            seq![direct_record(path, name)],
        ),
        direct_record(path, name).exported_name == name,
        direct_record(path, name).is_type_only is None,
        direct_record(path, name).priority == 0,
{
    lemma_all_records_single(path, pascal_case(stem), event);
    lemma_lone_event_named(event);
}

/// A file whose one event is a named export has one record per entry, in
/// the order of the entries, each under the entry's exported name and none
/// marked type-only.
pub proof fn lemma_scan_of_named_export(
    path: Seq<char>,
    stem: Seq<char>,
    event: ExportEventView,
    entries: Seq<NameBindingView>,
)
    requires
        event.form == ExportForm::Named,
        event.named_exports == Some(entries),
    ensures
        scan_outcome(path, Some(stem), seq![event]) matches Ok(records) && {
            &&& records.len() == entries.len()
            &&& forall|k: int|
                0 <= k < entries.len() ==> {
                    &&& (#[trigger] records[k]).exported_name == entries[k].exported
                    &&& records[k].local_name == Some(entries[k].local)
                    &&& records[k].is_type_only is None
                    &&& records[k].type_origin_label is None
                }
        },
{
    lemma_all_records_single(path, pascal_case(stem), event);
    lemma_lone_event_named(event);
}

/// A file whose one event is a type-only export has one record per entry,
/// in the order of the entries, each under the entry's exported name, marked
/// type-only and labelled with the stem in PascalCase.
pub proof fn lemma_scan_of_type_export(
    path: Seq<char>,
    stem: Seq<char>,
    event: ExportEventView,
    entries: Seq<NameBindingView>,
)
    requires
        event.form == ExportForm::TypeOnly,
        event.type_named_exports == Some(entries),
    ensures
        scan_outcome(path, Some(stem), seq![event]) matches Ok(records) && {
            &&& records.len() == entries.len()
            &&& forall|k: int|
                0 <= k < entries.len() ==> {
                    &&& (#[trigger] records[k]).exported_name == entries[k].exported
                    &&& records[k].local_name == Some(entries[k].local)
                    &&& records[k].is_type_only == Some(true)
                    &&& records[k].type_origin_label == Some(pascal_case(stem))
                }
        },
{
    lemma_all_records_single(path, pascal_case(stem), event);
    lemma_lone_event_named(event);
}

/// Every record of a scan is written the same way: it carries the path of
/// the file, priority 0 and nothing reserved, and it is marked type-only and
/// labelled with the stem in PascalCase, or neither marked nor labelled.
pub proof fn lemma_records_scanned_from(
    path: Seq<char>,
    stem: Seq<char>,
    events: Seq<ExportEventView>,
)
    ensures
        scan_outcome(path, Some(stem), events) matches Ok(records) ==> forall|k: int|
            0 <= k < records.len() ==> (#[trigger] records[k]).scanned_from(
                path,
                pascal_case(stem),
            ),
{
    let label = pascal_case(stem);
    lemma_all_records_each(path, label, events, |r: ExportView| r.scanned_from(path, label));
}

/// In a file whose stem is a single word, every type-only record is
/// labelled with the stem itself, with no change of case.
pub proof fn lemma_single_word_stem_is_label(
    path: Seq<char>,
    stem: Seq<char>,
    events: Seq<ExportEventView>,
)
    requires
        !crate::naming::has_separator(stem),
    ensures
        scan_outcome(path, Some(stem), events) matches Ok(records) ==> forall|k: int|
            0 <= k < records.len() && (#[trigger] records[k]).is_type_only == Some(true)
                ==> records[k].type_origin_label == Some(stem),
{
    lemma_records_scanned_from(path, stem, events);
}

/// Whether every name that the event gives to a record is non-empty.
pub open spec fn names_given(event: ExportEventView) -> bool {
    match event.form {
        ExportForm::Default => event.default_name matches Some(name) ==> name.len() > 0,
        ExportForm::Namespace | ExportForm::Declaration => event.name matches Some(name)
            ==> name.len() > 0,
        ExportForm::Named => event.named_exports matches Some(entries) ==> forall|k: int|
            0 <= k < entries.len() ==> (#[trigger] entries[k]).exported.len() > 0,
        ExportForm::TypeOnly => event.type_named_exports matches Some(entries) ==> forall|k: int|
            0 <= k < entries.len() ==> (#[trigger] entries[k]).exported.len() > 0,
    }
}

/// Where the path is not empty and the events give no empty name, every
/// record of the scan names its symbol and its file.
pub proof fn lemma_records_well_formed(
    path: Seq<char>,
    stem: Seq<char>,
    events: Seq<ExportEventView>,
)
    requires
        path.len() > 0,
        forall|i: int| 0 <= i < events.len() ==> names_given(#[trigger] events[i]),
    ensures
        scan_outcome(path, Some(stem), events) matches Ok(records) ==> forall|k: int|
            0 <= k < records.len() ==> (#[trigger] records[k]).well_formed(),
{
    let label = pascal_case(stem);
    assert forall|i: int, k: int|
        0 <= i < events.len() && 0 <= k < event_records(
            path,
            label,
            events[i],
        ).len() implies (#[trigger] event_records(path, label, events[i])[k]).well_formed() by {
        assert(names_given(events[i]));
    }
    lemma_all_records_each(path, label, events, |r: ExportView| r.well_formed());
}

} // verus!
